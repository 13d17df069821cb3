//! From parsed modules to the modules that are checked and emitted.

use crate::ast::{Item, Module, Span};
use crate::ast_copy::{copy_item, same_item};
use crate::cmake::EmitResult;
use crate::desugar_state::{desugar_widget_state, item_lifted, lifted_count, state_lifted};
use crate::desugar_store::{
    desugar_store, law_no_store_remains, store_count, store_lowered, stores_lowered,
};
use crate::desugar_suite::{desugar_suite, flattened, law_no_suite_remains};
use crate::manifest::{DriverError, Manifest};
use crate::mangle::{apply_rewrite, build_emit_names, lowered, module_renamed, names_of, EmitNames};
use crate::project::ProjectInfo;
use crate::sources::{join_path, path_join};
use crate::text::{
    chain, chars_of, find_chars, find_from, joined, lemma_find_from, same, string_of, views,
    wrap_each, wrapped,
};
use vstd::prelude::*;
use vstd::string::*;

verus! {

// ---- diagnostics ----------------------------------------------------------------

#[derive(Debug, Clone, Copy, PartialEq, Eq, Structural)]
pub enum Severity {
    Error,
    Warning,
    Note,
}

/// A remark at another place.
#[derive(Debug, Clone)]
pub struct DiagNote {
    pub span: Span,
    pub message: String,
}

/// Something to tell about the sources.
#[derive(Debug, Clone)]
pub struct Diagnostic {
    pub severity: Severity,
    pub primary: Span,
    pub message: String,
    pub notes: Vec<DiagNote>,
}

/// The number of errors among the first `n`.
pub open spec fn errors_among(diags: Seq<Diagnostic>, n: int) -> int
    decreases n,
{
    if n <= 0 {
        0
    } else if diags[n - 1].severity == Severity::Error {
        errors_among(diags, n - 1) + 1
    } else {
        errors_among(diags, n - 1)
    }
}

/// `i` is the first error.
pub open spec fn is_first_error(diags: Seq<Diagnostic>, i: int) -> bool {
    &&& 0 <= i < diags.len()
    &&& diags[i].severity == Severity::Error
    &&& forall|k: int| 0 <= k < i ==> (#[trigger] diags[k]).severity != Severity::Error
}

/// The number of errors. Warnings and notes do not count.
pub fn error_count(diags: &Vec<Diagnostic>) -> (r: usize)
    ensures
        r == errors_among(diags@, diags@.len() as int),
{
    let mut n: usize = 0;
    let mut i: usize = 0;
    while i < diags.len()
        invariant
            i <= diags@.len(),
            n == errors_among(diags@, i as int),
            n <= i,
        decreases diags@.len() - i,
    {
        if diags[i].severity == Severity::Error {
            n += 1;
        }
        i += 1;
    }
    n
}

proof fn lemma_no_errors(diags: Seq<Diagnostic>, n: int)
    requires
        0 <= n <= diags.len(),
    ensures
        0 <= errors_among(diags, n),
        errors_among(diags, n) == 0 <==> forall|k: int|
            0 <= k < n ==> (#[trigger] diags[k]).severity != Severity::Error,
    decreases n,
{
    if n > 0 {
        lemma_no_errors(diags, n - 1);
        if diags[n - 1].severity == Severity::Error {
            assert(!(forall|k: int| 0 <= k < n ==> (#[trigger] diags[k]).severity != Severity::Error));
        }
    }
}

/// Whether a build goes on: it fails where there is an error, with the number
/// of errors and the text of the first.
pub fn check_diagnostics(diags: &Vec<Diagnostic>) -> (r: Result<(), DriverError>)
    ensures
        match r {
            Ok(_) => errors_among(diags@, diags@.len() as int) == 0,
            Err(e) => {
                &&& errors_among(diags@, diags@.len() as int) > 0
                &&& match e {
                    DriverError::Resolve { count, first } => {
                        &&& count == errors_among(diags@, diags@.len() as int)
                        &&& exists|i: int| #[trigger]
                            is_first_error(diags@, i) && first@ == diags@[i].message@
                    },
                    _ => false,
                }
            },
        },
{
    let count: usize = error_count(diags);
    proof {
        lemma_no_errors(diags@, diags@.len() as int);
    }
    let mut i: usize = 0;
    while i < diags.len()
        invariant
            i <= diags@.len(),
            count == errors_among(diags@, diags@.len() as int),
            count == 0 <==> forall|k: int|
                0 <= k < diags@.len() ==> (#[trigger] diags@[k]).severity != Severity::Error,
            forall|k: int| 0 <= k < i ==> (#[trigger] diags@[k]).severity != Severity::Error,
        decreases diags@.len() - i,
    {
        if diags[i].severity == Severity::Error {
            assert(is_first_error(diags@, i as int));
            return Err(DriverError::Resolve { count, first: diags[i].message.clone() });
        }
        i += 1;
    }
    Ok(())
}

// ---- duplicate declarations -------------------------------------------------------

/// The name that an item introduces, and where: imports, implementations and
/// suites introduce none.
pub open spec fn item_name(item: Item) -> Option<(Seq<char>, Span)> {
    match item {
        Item::Class(d) => Some((d.name.name@, d.name.span)),
        Item::Struct(d) => Some((d.name.name@, d.name.span)),
        Item::Fn(d) => Some((d.name.name@, d.name.span)),
        Item::View(d) => Some((d.name.name@, d.name.span)),
        Item::Widget(d) => Some((d.name.name@, d.name.span)),
        Item::Style(d) => Some((d.name.name@, d.name.span)),
        Item::Trait(d) => Some((d.name.name@, d.name.span)),
        Item::Let(d) => Some((d.name.name@, d.name.span)),
        Item::Enum(d) => Some((d.name.name@, d.name.span)),
        Item::Flags(d) => Some((d.name.name@, d.name.span)),
        Item::Store(d) => Some((d.name.name@, d.name.span)),
        Item::Suite(_) | Item::Impl(_) | Item::Use(_) | Item::UseQml(_) => None,
    }
}

/// The name that an item introduces, and where.
pub fn item_name_span(item: &Item) -> (r: Option<(&str, Span)>)
    ensures
        match r {
            Some((n, s)) => item_name(*item) == Some((n@, s)),
            None => item_name(*item) is None,
        },
{
    match item {
        Item::Class(d) => Some((d.name.name.as_str(), d.name.span)),
        Item::Struct(d) => Some((d.name.name.as_str(), d.name.span)),
        Item::Fn(d) => Some((d.name.name.as_str(), d.name.span)),
        Item::View(d) => Some((d.name.name.as_str(), d.name.span)),
        Item::Widget(d) => Some((d.name.name.as_str(), d.name.span)),
        Item::Style(d) => Some((d.name.name.as_str(), d.name.span)),
        Item::Trait(d) => Some((d.name.name.as_str(), d.name.span)),
        Item::Let(d) => Some((d.name.name.as_str(), d.name.span)),
        Item::Enum(d) => Some((d.name.name.as_str(), d.name.span)),
        Item::Flags(d) => Some((d.name.name.as_str(), d.name.span)),
        Item::Store(d) => Some((d.name.name.as_str(), d.name.span)),
        Item::Suite(_) | Item::Impl(_) | Item::Use(_) | Item::UseQml(_) => None,
    }
}

/// The name that must be unique: functions may share theirs.
pub open spec fn unique_name(item: Item) -> Option<(Seq<char>, Span)> {
    if item is Fn {
        None
    } else {
        item_name(item)
    }
}

/// Where the first of the first `n` items with this unique name has it.
pub open spec fn first_declared(items: Seq<Item>, name: Seq<char>, n: int) -> Option<Span>
    decreases n,
{
    if n <= 0 {
        None
    } else {
        match first_declared(items, name, n - 1) {
            Some(s) => Some(s),
            None => match unique_name(items[n - 1]) {
                Some((m, s)) => if m == name {
                    Some(s)
                } else {
                    None
                },
                None => None,
            },
        }
    }
}

/// The duplicates among the first `n` items: each with its name, its place and
/// the place of the first declaration.
pub open spec fn duplicates(items: Seq<Item>, n: int) -> Seq<(Seq<char>, Span, Span)>
    decreases n,
{
    if n <= 0 {
        Seq::empty()
    } else {
        let before = duplicates(items, n - 1);
        match unique_name(items[n - 1]) {
            Some((name, span)) => match first_declared(items, name, n - 1) {
                Some(prev) => before.push((name, span, prev)),
                None => before,
            },
            None => before,
        }
    }
}

/// The duplicates of the first `n` modules. The same name in two modules is no
/// duplicate.
pub open spec fn module_duplicates(ms: Seq<Module>, n: int) -> Seq<(Seq<char>, Span, Span)>
    decreases n,
{
    if n <= 0 {
        Seq::empty()
    } else {
        module_duplicates(ms, n - 1) + duplicates(ms[n - 1].items@, ms[n - 1].items@.len() as int)
    }
}

/// The error for a duplicate.
pub open spec fn is_duplicate_error(d: (Seq<char>, Span, Span), e: Diagnostic) -> bool {
    &&& e.severity == Severity::Error
    &&& e.primary == d.1
    &&& e.message@ == "duplicate top-level declaration `"@ + d.0
        + "` in this file (rename or move one of them to a different module)"@
    &&& e.notes@.len() == 1
    &&& e.notes@[0].span == d.2
    &&& e.notes@[0].message@ == "first declared here"@
}

/// One error for each duplicate.
pub open spec fn are_duplicate_errors(
    ds: Seq<(Seq<char>, Span, Span)>,
    es: Seq<Diagnostic>,
) -> bool {
    &&& es.len() == ds.len()
    &&& forall|i: int| 0 <= i < ds.len() ==> is_duplicate_error(#[trigger] ds[i], es[i])
}

fn find_first(items: &Vec<Item>, name: &str, n: usize) -> (r: Option<Span>)
    requires
        n <= items@.len(),
    ensures
        r == first_declared(items@, name@, n as int),
{
    let mut i: usize = 0;
    let mut found: Option<Span> = None;
    while i < n
        invariant
            i <= n <= items@.len(),
            found == first_declared(items@, name@, i as int),
        decreases n - i,
    {
        if found.is_none() {
            match &items[i] {
                Item::Fn(_) => {},
                other => match item_name_span(other) {
                    Some((m, s)) => {
                        if same(m, name) {
                            found = Some(s);
                        }
                    },
                    None => {},
                },
            }
        }
        i += 1;
    }
    found
}

fn duplicate_error(name: &str, span: Span, prev: Span) -> (r: Diagnostic)
    ensures
        is_duplicate_error((name@, span, prev), r),
{
    let mut notes: Vec<DiagNote> = Vec::new();
    notes.push(DiagNote { span: prev, message: "first declared here".to_owned() });
    Diagnostic {
        severity: Severity::Error,
        primary: span,
        message: "duplicate top-level declaration `".to_owned().concat(name).concat(
            "` in this file (rename or move one of them to a different module)",
        ),
        notes,
    }
}

fn check_module(items: &Vec<Item>) -> (r: Vec<Diagnostic>)
    ensures
        are_duplicate_errors(duplicates(items@, items@.len() as int), r@),
{
    let mut out: Vec<Diagnostic> = Vec::new();
    let mut i: usize = 0;
    while i < items.len()
        invariant
            i <= items@.len(),
            are_duplicate_errors(duplicates(items@, i as int), out@),
        decreases items@.len() - i,
    {
        match &items[i] {
            Item::Fn(_) => {},
            other => match item_name_span(other) {
                Some((name, span)) => match find_first(items, name, i) {
                    Some(prev) => {
                        out.push(duplicate_error(name, span, prev));
                    },
                    None => {},
                },
                None => {},
            },
        }
        i += 1;
    }
    out
}

/// The errors for names that a module declares twice.
pub fn check_user_collisions(modules: &Vec<Module>) -> (r: Vec<Diagnostic>)
    ensures
        are_duplicate_errors(module_duplicates(modules@, modules@.len() as int), r@),
{
    let mut out: Vec<Diagnostic> = Vec::new();
    let mut i: usize = 0;
    while i < modules.len()
        invariant
            i <= modules@.len(),
            are_duplicate_errors(module_duplicates(modules@, i as int), out@),
        decreases modules@.len() - i,
    {
        let mut found = check_module(&modules[i].items);
        let ghost before = out@;
        let ghost new = found@;
        out.append(&mut found);
        proof {
            let da = module_duplicates(modules@, i as int);
            let db = duplicates(modules@[i as int].items@, modules@[i as int].items@.len() as int);
            assert(module_duplicates(modules@, i + 1) == da + db);
            assert forall|k: int| 0 <= k < (da + db).len() implies is_duplicate_error(
                #[trigger] (da + db)[k],
                out@[k],
            ) by {
                if k < da.len() {
                    assert((da + db)[k] == da[k]);
                    assert(out@[k] == before[k]);
                } else {
                    assert((da + db)[k] == db[k - da.len()]);
                    assert(out@[k] == new[k - da.len()]);
                }
            }
        }
        i += 1;
    }
    out
}

// ---- merging modules ----------------------------------------------------------------

/// The items of the first `n` modules, one module after another.
pub open spec fn all_items(ms: Seq<Module>, n: int) -> Seq<Item>
    decreases n,
{
    if n <= 0 {
        Seq::empty()
    } else {
        all_items(ms, n - 1) + ms[n - 1].items@
    }
}

/// The list holds copies of the items.
pub open spec fn items_copied(a: Seq<Item>, b: Seq<Item>) -> bool {
    &&& b.len() == a.len()
    &&& forall|i: int| 0 <= i < a.len() ==> same_item(#[trigger] a[i], b[i])
}

fn append_copies(out: Vec<Item>, items: &Vec<Item>, Ghost(a): Ghost<Seq<Item>>) -> (r: Vec<Item>)
    requires
        items_copied(a, out@),
    ensures
        items_copied(a + items@, r@),
{
    let ghost start = out@;
    let mut out = out;
    let mut i: usize = 0;
    while i < items.len()
        invariant
            i <= items@.len(),
            items_copied(a, start),
            out@.len() == a.len() + i,
            forall|k: int| 0 <= k < a.len() ==> out@[k] == start[k],
            forall|k: int| 0 <= k < i ==> same_item(#[trigger] items@[k], out@[a.len() + k]),
        decreases items@.len() - i,
    {
        out.push(copy_item(&items[i]));
        i += 1;
    }
    proof {
        let c = a + items@;
        assert forall|k: int| 0 <= k < c.len() implies same_item(#[trigger] c[k], out@[k]) by {
            if k < a.len() {
                assert(c[k] == a[k]);
                assert(out@[k] == start[k]);
            } else {
                assert(c[k] == items@[k - a.len()]);
            }
        }
    }
    out
}

fn copy_all_items(ms: &Vec<Module>) -> (r: Vec<Item>)
    ensures
        items_copied(all_items(ms@, ms@.len() as int), r@),
{
    let mut out: Vec<Item> = Vec::new();
    let mut i: usize = 0;
    while i < ms.len()
        invariant
            i <= ms@.len(),
            items_copied(all_items(ms@, i as int), out@),
        decreases ms@.len() - i,
    {
        out = append_copies(out, &ms[i].items, Ghost(all_items(ms@, i as int)));
        i += 1;
    }
    out
}

/// The bindings' items, and the user's items behind them.
pub open spec fn is_combined(user: Module, bindings: Seq<Module>, r: Module) -> bool {
    &&& items_copied(all_items(bindings, bindings.len() as int) + user.items@, r.items@)
    &&& r.span == user.span
}

/// One module of the bindings' items and the user's items behind them, so that
/// the bindings are declared first.
pub fn combine_modules(user: &Module, bindings: &Vec<Module>) -> (r: Module)
    ensures
        is_combined(*user, bindings@, r),
{
    let items = copy_all_items(bindings);
    let items = append_copies(
        items,
        &user.items,
        Ghost(all_items(bindings@, bindings@.len() as int)),
    );
    Module { items, span: user.span }
}

/// The items of all modules; the place is that of the first.
pub open spec fn is_merged(ms: Seq<Module>, r: Module) -> bool {
    &&& items_copied(all_items(ms, ms.len() as int), r.items@)
    &&& r.span == if ms.len() > 0 {
        ms[0].span
    } else {
        (Span { file: crate::ast::FileId(0), start: 0, end: 0 })
    }
}

/// One module of the items of all modules.
pub fn merge_user_modules(modules: &Vec<Module>) -> (r: Module)
    ensures
        is_merged(modules@, r),
{
    let items = copy_all_items(modules);
    let span = if modules.len() > 0 {
        modules[0].span
    } else {
        Span::dummy()
    };
    Module { items, span }
}

// ---- lowering -------------------------------------------------------------------------

/// `r` is the merged module with its suites flattened, its stores lowered and
/// the state of its widgets lifted, in this order.
pub open spec fn is_lowered_from(ms: Seq<Module>, r: Module) -> bool {
    exists|m: Module, s: Module, t: Module| #[trigger] lowering_steps(ms, m, s, t, r)
}

/// The steps of lowering.
pub open spec fn lowering_steps(
    ms: Seq<Module>,
    m: Module,
    s: Module,
    t: Module,
    r: Module,
) -> bool {
    &&& is_merged(ms, m)
    &&& s.items@ == flattened(m.items@, m.items@.len() as int)
    &&& s.span == m.span
    &&& stores_lowered(s, t)
    &&& state_lifted(t, r)
}

/// After lowering, neither a suite nor a store is left.
pub proof fn law_lowered_has_no_suite_or_store(
    ms: Seq<Module>,
    m: Module,
    s: Module,
    t: Module,
    r: Module,
)
    requires
        lowering_steps(ms, m, s, t, r),
    ensures
        lowered(r.items@),
{
    assert forall|j: int| 0 <= j < s.items@.len() implies !(#[trigger] s.items@[j] is Suite) by {
        law_no_suite_remains(m.items@, m.items@.len() as int, j);
    }
    assert forall|j: int| 0 <= j < t.items@.len() implies !(#[trigger] t.items@[j] is Suite)
        && !(t.items@[j] is Store) by {
        law_no_store_remains(s, t, j);
        let i = lemma_store_origin(s.items@, s.items@.len() as int, j);
        assert(store_lowered(s.items@[i], t.items@, store_count(s.items@, i)));
    }
    assert forall|j: int| 0 <= j < r.items@.len() implies !(#[trigger] r.items@[j] is Store)
        && !(r.items@[j] is Suite) by {
        let i = lemma_lift_origin(t.items@, t.items@.len() as int, j);
        assert(item_lifted(t.items@[i], r.items@, lifted_count(t.items@, i)));
    }
}

proof fn lemma_store_origin(items: Seq<Item>, n: int, j: int) -> (i: int)
    requires
        0 <= n <= items.len(),
        0 <= j < store_count(items, n),
    ensures
        0 <= i < n,
        j == store_count(items, i) || (items[i] is Store && j == store_count(items, i) + 1),
    decreases n,
{
    if j >= store_count(items, n - 1) {
        n - 1
    } else {
        lemma_store_origin(items, n - 1, j)
    }
}

proof fn lemma_lift_origin(items: Seq<Item>, n: int, j: int) -> (i: int)
    requires
        0 <= n <= items.len(),
        0 <= j < lifted_count(items, n),
    ensures
        0 <= i < n,
        j == lifted_count(items, i) || (crate::desugar_state::has_state(items[i]) && j
            == lifted_count(items, i) + 1),
    decreases n,
{
    if j >= lifted_count(items, n - 1) {
        n - 1
    } else {
        lemma_lift_origin(items, n - 1, j)
    }
}

/// Merges the user's modules and lowers what they declare.
pub fn lower_modules(modules: &Vec<Module>) -> (r: Module)
    ensures
        is_lowered_from(modules@, r),
        lowered(r.items@),
{
    let m = merge_user_modules(modules);
    let ghost m0 = m;
    let s = desugar_suite(m);
    let ghost s0 = s;
    let t = desugar_store(s);
    let ghost t0 = t;
    let r = desugar_widget_state(t);
    proof {
        assert(lowering_steps(modules@, m0, s0, t0, r));
        law_lowered_has_no_suite_or_store(modules@, m0, s0, t0, r);
    }
    r
}

/// What is checked and what is emitted.
#[derive(Debug)]
pub struct Prepared {
    /// The bindings and the user's items, for the type checker.
    pub combined: Module,
    /// The user's items alone, for code generation.
    pub user: Module,
    /// The names that classes are emitted under.
    pub names: EmitNames,
}

/// The prepared modules are those of the user's modules and the bindings, with
/// one table of names for both.
pub open spec fn is_prepared(
    user_modules: Seq<Module>,
    bindings: Seq<Module>,
    project: ProjectInfo,
    p: Prepared,
) -> bool {
    exists|u: Module, c: Module| #[trigger]
        preparation(user_modules, bindings, project, u, c, p)
}

/// The steps of the preparation.
pub open spec fn preparation(
    user_modules: Seq<Module>,
    bindings: Seq<Module>,
    project: ProjectInfo,
    u: Module,
    c: Module,
    p: Prepared,
) -> bool {
    &&& is_lowered_from(user_modules, u)
    &&& is_combined(u, bindings, c)
    &&& names_of(p.names, c.items@, project)
    &&& module_renamed(p.names, project, c, p.combined)
    &&& module_renamed(p.names, project, u, p.user)
}

proof fn lemma_copy_lowered(a: Seq<Item>, b: Seq<Item>)
    requires
        items_copied(a, b),
        lowered(a),
    ensures
        lowered(b),
{
    assert forall|i: int| 0 <= i < b.len() implies !(#[trigger] b[i] is Store) && !(b[i] is Suite) by {
        assert(same_item(a[i], b[i]));
    }
}

/// Lowers the user's modules, puts the bindings before them, and renames
/// colliding classes in both views by one table.
pub fn prepare(
    user_modules: &Vec<Module>,
    bindings: &Vec<Module>,
    project: &ProjectInfo,
) -> (r: Prepared)
    requires
        lowered(all_items(bindings@, bindings@.len() as int)),
    ensures
        is_prepared(user_modules@, bindings@, *project, r),
{
    let user = lower_modules(user_modules);
    let combined = combine_modules(&user, bindings);
    proof {
        let a = all_items(bindings@, bindings@.len() as int) + user.items@;
        assert forall|i: int| 0 <= i < a.len() implies !(#[trigger] a[i] is Store) && !(a[i] is Suite) by {
            let b = all_items(bindings@, bindings@.len() as int);
            if i < b.len() {
                assert(a[i] == b[i]);
            } else {
                assert(a[i] == user.items@[i - b.len()]);
            }
        }
        lemma_copy_lowered(a, combined.items@);
    }
    let names = build_emit_names(&combined, project);
    let p = Prepared {
        combined: apply_rewrite(&combined, &names, project),
        user: apply_rewrite(&user, &names, project),
        names,
    };
    assert(preparation(user_modules@, bindings@, *project, user, combined, p));
    p
}

// ---- the generated header ---------------------------------------------------------------

/// `header` with `extra` behind its `#pragma once` line, or at its start.
pub open spec fn prepended(header: Seq<char>, extra: Seq<char>) -> Seq<char> {
    match find_from(header, "#pragma once\n"@, 0) {
        Some(i) => {
            let at = i + "#pragma once\n"@.len();
            header.subrange(0, at) + extra + header.subrange(at, header.len() as int)
        },
        None => extra + header,
    }
}

/// Puts `extra` behind the `#pragma once` line of `header`, or at its start.
pub fn prepend_after_pragma_once(header: &mut String, extra: &str)
    ensures
        final(header)@ == prepended(old(header)@, extra@),
{
    let v = chars_of(header.as_str());
    let needle = chars_of("#pragma once\n");
    let new = match find_chars(&v, &needle, 0) {
        Some(i) => {
            let n: usize = v.len();
            let at: usize = i + needle.len();
            string_of(&v, 0, at).concat(extra).concat(string_of(&v, at, n).as_str())
        },
        None => extra.to_owned().concat(header.as_str()),
    };
    *header = new;
}

/// Nothing of the header is lost, and `extra` stands in it as a whole.
pub proof fn law_prepending_keeps_the_header(header: Seq<char>, extra: Seq<char>)
    ensures
        exists|at: int|
            0 <= at <= header.len() && #[trigger] header.subrange(0, at) + extra + header.subrange(
                at,
                header.len() as int,
            ) == prepended(header, extra),
{
    lemma_find_from(header, "#pragma once\n"@, 0);
    match find_from(header, "#pragma once\n"@, 0) {
        Some(i) => {
            let at = i + "#pragma once\n"@.len();
            assert(header.subrange(0, at) + extra + header.subrange(at, header.len() as int)
                == prepended(header, extra));
        },
        None => {
            assert(header.subrange(0, 0) + extra + header.subrange(0, header.len() as int)
                =~= prepended(header, extra));
        },
    }
}

/// The `#include` lines that the manifest asks for: its own headers first, then
/// those of its libraries.
pub open spec fn include_lines(manifest: Manifest) -> Seq<Seq<char>> {
    wrapped(views(manifest.cpp.includes@), "#include "@, ""@) + wrapped(
        views(manifest.cute_libraries.deps@),
        "#include <"@,
        ".h>"@,
    )
}

/// The header with the `#include` lines of the manifest.
pub open spec fn with_includes(header: Seq<char>, manifest: Manifest) -> Seq<char> {
    let lines = include_lines(manifest);
    if lines.len() == 0 {
        header
    } else {
        prepended(header, crate::text::join(lines, "\n"@) + "\n"@)
    }
}

/// Puts the `#include` lines of the manifest into the generated header.
pub fn inject_includes(header: String, manifest: &Manifest) -> (r: String)
    ensures
        r@ == with_includes(header@, *manifest),
{
    let a = wrap_each(&manifest.cpp.includes, "#include ", "");
    let b = wrap_each(&manifest.cute_libraries.deps, "#include <", ".h>");
    let lines = chain(a, b);
    assert(views(lines@).len() == lines@.len());
    if lines.len() == 0 {
        return header;
    }
    let mut out = header;
    prepend_after_pragma_once(&mut out, joined(&lines, "\n").concat("\n").as_str());
    out
}

// ---- the front end ------------------------------------------------------------------------

/// What the checks of the combined module found.
#[derive(Debug)]
pub struct Checks {
    pub resolve: Vec<Diagnostic>,
    pub types: Vec<Diagnostic>,
    pub linearity: Vec<Diagnostic>,
}

/// All that there is to tell: duplicates first, then the checks in their order.
pub fn all_diagnostics(user_modules: &Vec<Module>, checks: Checks) -> (r: Vec<Diagnostic>)
    ensures
        exists|d: Seq<Diagnostic>| #[trigger]
            are_duplicate_errors(module_duplicates(user_modules@, user_modules@.len() as int), d)
                && r@ == d + checks.resolve@ + checks.types@ + checks.linearity@,
{
    let mut out = check_user_collisions(user_modules);
    let ghost d = out@;
    let mut resolve = checks.resolve;
    let mut types = checks.types;
    let mut linearity = checks.linearity;
    out.append(&mut resolve);
    out.append(&mut types);
    out.append(&mut linearity);
    assert(out@ =~= d + checks.resolve@ + checks.types@ + checks.linearity@);
    out
}

/// What a check finds, and how many errors are among it.
pub fn check_file(user_modules: &Vec<Module>, checks: Checks) -> (r: (Vec<Diagnostic>, usize))
    ensures
        r.1 == errors_among(r.0@, r.0@.len() as int),
        exists|d: Seq<Diagnostic>| #[trigger]
            are_duplicate_errors(module_duplicates(user_modules@, user_modules@.len() as int), d)
                && r.0@ == d + checks.resolve@ + checks.types@ + checks.linearity@,
{
    let diags = all_diagnostics(user_modules, checks);
    let count: usize = error_count(&diags);
    (diags, count)
}

/// The generated files, as they are written into a directory.
pub fn build_file(emit: &EmitResult, out_dir: &str) -> (r: Vec<(String, String)>)
    ensures
        r@.len() == 2,
        r@[0].0@ == path_join(out_dir@, emit.header_filename@),
        r@[0].1@ == emit.header@,
        r@[1].0@ == path_join(out_dir@, emit.source_filename@),
        r@[1].1@ == emit.source@,
{
    let mut v: Vec<(String, String)> = Vec::new();
    v.push((join_path(out_dir, emit.header_filename.as_str()), emit.header.clone()));
    v.push((join_path(out_dir, emit.source_filename.as_str()), emit.source.clone()));
    v
}

/// The end of the front end: it fails where the input names no file, where
/// there is an error, or where no code could be generated, and else gives the
/// generated code, its header with the `#include` lines of the manifest.
pub fn frontend_with_mode(
    stem: &Option<String>,
    input: &str,
    manifest: &Manifest,
    diags: &Vec<Diagnostic>,
    emitted: Result<EmitResult, String>,
) -> (r: Result<(String, EmitResult), DriverError>)
    ensures
        match r {
            Ok((s, e)) => {
                &&& stem is Some
                &&& s@ == stem->0@
                &&& errors_among(diags@, diags@.len() as int) == 0
                &&& emitted is Ok
                &&& e == (EmitResult { header: e.header, ..emitted->Ok_0 })
                &&& e.header@ == with_includes(emitted->Ok_0.header@, *manifest)
            },
            Err(DriverError::Codegen(m)) => {
                &&& stem is Some
                &&& errors_among(diags@, diags@.len() as int) == 0
                &&& emitted is Err
                &&& m == emitted->Err_0
            },
            Err(DriverError::NoStem(p)) => stem is None && p@ == input@,
            Err(DriverError::Resolve { count, first }) => {
                &&& stem is Some
                &&& count == errors_among(diags@, diags@.len() as int)
                &&& count > 0
                &&& exists|i: int| #[trigger]
                    is_first_error(diags@, i) && first@ == diags@[i].message@
            },
            Err(_) => false,
        },
{
    let name = match stem {
        Some(s) => s.clone(),
        None => {
            return Err(DriverError::NoStem(input.to_owned()));
        },
    };
    match check_diagnostics(diags) {
        Ok(_) => {},
        Err(e) => {
            return Err(e);
        },
    }
    let emitted = match emitted {
        Ok(e) => e,
        Err(m) => {
            return Err(DriverError::Codegen(m));
        },
    };
    let header = inject_includes(emitted.header, manifest);
    Ok(
        (
            name,
            EmitResult {
                header_filename: emitted.header_filename,
                header,
                source_filename: emitted.source_filename,
                source: emitted.source,
                views: emitted.views,
            },
        ),
    )
}

} // verus!
