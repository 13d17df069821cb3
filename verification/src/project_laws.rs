//! What holds of the modules of a project: what they import, which names
//! collide, in which order their items stand, and what the styles of their
//! elements become.

use crate::ast::{
    BinOp, Element, ElementMember, Expr, ExprKind, Item, Module, StateField, StyleBody, StyleDecl, UseDecl,
    UseKind,
};
use crate::ast_copy::same_expr;
use crate::copy_laws::{
    law_copied_items_hold_all_words, lemma_params, lemma_state_fields, words_ident, words_item,
    words_params, words_state_fields,
};
use crate::desugar_state::{law_no_state_remains, prop_fields};
use crate::frontend::{
    all_items, duplicates, errors_among, law_lowered_has_no_suite_or_store, lowering_steps,
    preparation, Prepared, first_declared, include_lines, is_combined, is_merged,
    prepended, unique_name, with_includes, Diagnostic, Severity,
};
use crate::mangle_refs::{law_every_reference_is_renamed, refs_follow, refs_module};
use crate::manifest::Manifest;
use crate::meta_laws::{lemma_ends_contains, lemma_extends_add, lemma_extends_contains};
use crate::project::{
    ambient_imports, file_modules, item_aliases, item_imports, item_selected, local_name,
    module_imports, prelude_names, selected_of, with_item_names, ModuleFacts, ProjectInfo,
};
use crate::sources::{first_files, module_file, path_join, segment_names, use_targets};
use crate::style::{
    element_styled, expr_entries, is_property, item_styled, module_styled, StyleEnv, member_span,
    member_styled, merged, spliced, style_decl, style_of, styled_count, Fault,
};
use crate::text::{added, contains, find_from, join, matches_at, views};
use vstd::prelude::*;

verus! {

pub(crate) proof fn lemma_left<T>(a: Seq<T>, b: Seq<T>, x: T)
    requires
        a.contains(x),
    ensures
        (a + b).contains(x),
{
    let k = choose|k: int| 0 <= k < a.len() && a[k] == x;
    assert((a + b)[k] == x);
}

pub(crate) proof fn lemma_right<T>(a: Seq<T>, b: Seq<T>, x: T)
    requires
        b.contains(x),
    ensures
        (a + b).contains(x),
{
    let k = choose|k: int| 0 <= k < b.len() && b[k] == x;
    assert((a + b)[a.len() + k] == x);
}

pub(crate) proof fn lemma_pushed<T>(a: Seq<T>, y: T, x: T)
    requires
        a.contains(x) || x == y,
    ensures
        a.push(y).contains(x),
{
    if a.contains(x) {
        let k = choose|k: int| 0 <= k < a.len() && a[k] == x;
        assert(a.push(y)[k] == x);
    } else {
        assert(a.push(y)[a.len() as int] == x);
    }
}

// ---- imports -----------------------------------------------------------------------

/// The declaration names a module of the project: its path does not start with
/// `qt`.
pub open spec fn names_a_module(u: UseDecl) -> bool {
    u.path@.len() > 0 && u.path@[0].name@ != "qt"@
}

proof fn lemma_item_imports(name: Seq<char>, items: Seq<Item>, i: int, n: int)
    requires
        0 <= i < n <= items.len(),
        items[i] matches Item::Use(u) && names_a_module(u) && u.kind is Module,
    ensures
        item_imports(name, items, n).contains((name, (items[i]->Use_0).path@.last().name@)),
    decreases n,
{
    let before = item_imports(name, items, n - 1);
    let x = (name, (items[i]->Use_0).path@.last().name@);
    if i < n - 1 {
        lemma_item_imports(name, items, i, n - 1);
    }
    if let Item::Use(u) = items[n - 1] {
        lemma_pushed_if(before, (name, u.path@.last().name@), x);
    }
}

proof fn lemma_pushed_if<T>(a: Seq<T>, y: T, x: T)
    ensures
        a.contains(x) || x == y ==> a.push(y).contains(x),
{
    if a.contains(x) || x == y {
        lemma_pushed(a, y, x);
    }
}

/// A module that is imported as a whole is among the imports of the module
/// that imports it, under the last name of its path.
pub proof fn law_used_modules_are_imported(
    ms: Seq<Module>,
    facts: Seq<ModuleFacts>,
    m: int,
    i: int,
    n: int,
)
    requires
        0 <= m < n <= ms.len(),
        n <= facts.len(),
        facts[m].name is Some,
        0 <= i < ms[m].items@.len(),
        ms[m].items@[i] matches Item::Use(u) && names_a_module(u) && u.kind is Module,
    ensures
        module_imports(ms, facts, n).contains(
            (facts[m].name->0@, (ms[m].items@[i]->Use_0).path@.last().name@),
        ),
    decreases n,
{
    let x = (facts[m].name->0@, (ms[m].items@[i]->Use_0).path@.last().name@);
    let before = module_imports(ms, facts, n - 1);
    if m == n - 1 {
        let own = item_imports(facts[m].name->0@, ms[m].items@, ms[m].items@.len() as int);
        lemma_item_imports(facts[m].name->0@, ms[m].items@, i, ms[m].items@.len() as int);
        lemma_right(before, own, x);
    } else {
        law_used_modules_are_imported(ms, facts, m, i, n - 1);
        if let Some(name) = facts[n - 1].name {
            lemma_left(
                before,
                item_imports(name@, ms[n - 1].items@, ms[n - 1].items@.len() as int),
                x,
            );
        }
    }
}

proof fn lemma_import_source(name: Seq<char>, items: Seq<Item>, n: int, k: int) -> (i: int)
    requires
        0 <= n <= items.len(),
        0 <= k < item_imports(name, items, n).len(),
    ensures
        0 <= i < n,
        items[i] matches Item::Use(u) && names_a_module(u) && u.kind is Module
            && item_imports(name, items, n)[k] == (name, u.path@.last().name@),
    decreases n,
{
    let before = item_imports(name, items, n - 1);
    if k < before.len() {
        lemma_import_source(name, items, n - 1, k)
    } else {
        n - 1
    }
}

/// A module imports no other module than those that it declares, and nothing
/// of Qt.
pub proof fn law_only_used_modules_are_imported(
    name: Seq<char>,
    items: Seq<Item>,
    target: Seq<char>,
)
    requires
        item_imports(name, items, items.len() as int).contains((name, target)),
    ensures
        exists|i: int|
            0 <= i < items.len() && (#[trigger] items[i] matches Item::Use(u) && names_a_module(u)
                && u.kind is Module && u.path@.last().name@ == target),
{
    let v = item_imports(name, items, items.len() as int);
    let k = choose|k: int| 0 <= k < v.len() && v[k] == (name, target);
    let i = lemma_import_source(name, items, items.len() as int, k);
    assert(items[i] matches Item::Use(u) && names_a_module(u) && u.kind is Module
        && u.path@.last().name@ == target);
}

/// `use a.b as c` makes `c` a name for `b`.
pub proof fn law_aliases_stand_for_modules(name: Seq<char>, items: Seq<Item>, i: int, n: int)
    requires
        0 <= i < n <= items.len(),
        items[i] matches Item::Use(u) && names_a_module(u) && (u.kind matches UseKind::Module(
            Some(a),
        )),
    ensures
        item_aliases(name, items, n).contains(
            (
                name,
                ((items[i]->Use_0).kind->Module_0)->0.name@,
                (items[i]->Use_0).path@.last().name@,
            ),
        ),
    decreases n,
{
    let x = (
        name,
        ((items[i]->Use_0).kind->Module_0)->0.name@,
        (items[i]->Use_0).path@.last().name@,
    );
    let before = item_aliases(name, items, n - 1);
    if i < n - 1 {
        law_aliases_stand_for_modules(name, items, i, n - 1);
    }
    if let Item::Use(u) = items[n - 1] {
        if let UseKind::Module(Some(a)) = u.kind {
            lemma_pushed_if(before, (name, a.name@, u.path@.last().name@), x);
        }
    }
}

/// A name that is selected from a module is known under its alias, or under
/// itself where it has none, and stands for the name in that module; of the
/// names that are passed on that holds where the declaration is public.
pub proof fn law_selected_names_are_known(
    name: Seq<char>,
    items: Seq<Item>,
    only_pub: bool,
    i: int,
    k: int,
    n: int,
)
    requires
        0 <= i < n <= items.len(),
        items[i] matches Item::Use(u) && names_a_module(u) && (only_pub ==> u.is_pub) && (
        u.kind matches UseKind::Names(v) && 0 <= k < v@.len()),
    ensures
        ({
            let u = items[i]->Use_0;
            let chosen = (u.kind->Names_0)@[k];
            let local = match chosen.alias {
                Some(a) => a.name@,
                None => chosen.name.name@,
            };
            item_selected(name, items, only_pub, n).contains(
                (name, local, u.path@.last().name@, chosen.name.name@),
            )
        }),
    decreases n,
{
    let u = items[i]->Use_0;
    let chosen = (u.kind->Names_0)@[k];
    let x = (name, local_name(chosen), u.path@.last().name@, chosen.name.name@);
    let before = item_selected(name, items, only_pub, n - 1);
    if i == n - 1 {
        let own = selected_of(name, u.path@.last().name@, (u.kind->Names_0)@);
        assert(own[k] == x);
        lemma_right(before, own, x);
    } else {
        law_selected_names_are_known(name, items, only_pub, i, k, n - 1);
        if let Item::Use(w) = items[n - 1] {
            if let UseKind::Names(v) = w.kind {
                lemma_left(before, selected_of(name, w.path@.last().name@, v@), x);
            }
        }
    }
}

/// A selection that is not public passes nothing on.
pub proof fn law_private_selections_are_not_passed_on(name: Seq<char>, items: Seq<Item>, n: int)
    requires
        0 <= n <= items.len(),
        forall|i: int|
            0 <= i < items.len() ==> (#[trigger] items[i] matches Item::Use(u) ==> !u.is_pub),
    ensures
        item_selected(name, items, true, n).len() == 0,
    decreases n,
{
    if n > 0 {
        law_private_selections_are_not_passed_on(name, items, n - 1);
        assert(items[n - 1] matches Item::Use(u) ==> !u.is_pub);
    }
}

/// A file belongs to the module that was read from it last.
pub proof fn law_files_belong_to_their_module(
    ms: Seq<Module>,
    facts: Seq<ModuleFacts>,
    m: int,
    n: int,
)
    requires
        0 <= m < n <= ms.len(),
        n <= facts.len(),
        facts[m].name is Some,
        forall|k: int|
            m < k < n && facts[k].name is Some ==> (#[trigger] ms[k]).span.file.0
                != ms[m].span.file.0,
    ensures
        file_modules(ms, facts, n).contains_key(ms[m].span.file.0),
        file_modules(ms, facts, n)[ms[m].span.file.0] == facts[m].name->0@,
    decreases n,
{
    if m < n - 1 {
        law_files_belong_to_their_module(ms, facts, m, n - 1);
        assert(facts[n - 1].name is Some ==> ms[n - 1].span.file.0 != ms[m].span.file.0);
    }
}

/// No ambient module is imported by itself, and no module that is not ambient
/// is imported without being asked for.
pub proof fn law_only_ambient_modules_are_added(
    name: Seq<char>,
    facts: Seq<ModuleFacts>,
    n: int,
    k: int,
) -> (j: int)
    requires
        0 <= n <= facts.len(),
        0 <= k < ambient_imports(name, facts, n).len(),
    ensures
        0 <= j < n,
        facts[j].ambient,
        facts[j].name matches Some(other) && other@ != name && ambient_imports(name, facts, n)[k]
            == (name, other@),
    decreases n,
{
    let before = ambient_imports(name, facts, n - 1);
    if k < before.len() {
        law_only_ambient_modules_are_added(name, facts, n - 1, k)
    } else {
        n - 1
    }
}

proof fn lemma_with_names(names: Seq<Seq<char>>, items: Seq<Item>, n: int)
    requires
        0 <= n <= items.len(),
    ensures
        forall|x: Seq<char>| names.contains(x) ==> #[trigger] with_item_names(names, items, n).contains(x),
        forall|i: int|
            #![trigger items[i]]
            0 <= i < n ==> (crate::frontend::item_name(items[i]) matches Some(d)
                ==> with_item_names(names, items, n).contains(d.0)),
    decreases n,
{
    if n > 0 {
        lemma_with_names(names, items, n - 1);
        let before = with_item_names(names, items, n - 1);
        let now = with_item_names(names, items, n);
        if let Some((m, s)) = crate::frontend::item_name(items[n - 1]) {
            assert forall|x: Seq<char>| before.contains(x) implies #[trigger] now.contains(x) by {
                lemma_pushed_if(before, m, x);
            }
            lemma_pushed_if(before, m, m);
        }
    }
}

/// Every name that a binding module introduces is one that all modules see.
pub proof fn law_binding_names_are_seen(ms: Seq<Module>, m: int, i: int, n: int)
    requires
        0 <= m < n <= ms.len(),
        0 <= i < ms[m].items@.len(),
        crate::frontend::item_name(ms[m].items@[i]) is Some,
    ensures
        prelude_names(ms, n).contains((crate::frontend::item_name(ms[m].items@[i])->0).0),
    decreases n,
{
    let before = prelude_names(ms, n - 1);
    lemma_with_names(before, ms[n - 1].items@, ms[n - 1].items@.len() as int);
    if m < n - 1 {
        law_binding_names_are_seen(ms, m, i, n - 1);
    }
}

/// An import is read from the file that its path names below the root: a
/// directory for each name but the last, and a source file for the last.
pub proof fn law_imports_are_files(root: Seq<char>, u: UseDecl)
    requires
        u.path@.len() > 0,
    ensures
        u.path@.len() == 1 ==> module_file(root, u.path@, 1) == path_join(
            root,
            u.path@[0].name@ + ".cute"@,
        ),
        u.path@.len() == 2 ==> module_file(root, u.path@, 2) == path_join(
            path_join(root, u.path@[0].name@),
            u.path@[1].name@ + ".cute"@,
        ),
        u.path@.len() > 1 ==> exists|dir: Seq<char>| #[trigger]
            path_join(dir, u.path@.last().name@ + ".cute"@) == module_file(
                root,
                u.path@,
                u.path@.len() as int,
            ) && dir == module_file(root, u.path@, u.path@.len() - 1),
{
    reveal_with_fuel(module_file, 3);
    let n = u.path@.len() as int;
    if n > 1 {
        let dir = module_file(root, u.path@, n - 1);
        assert(path_join(dir, u.path@.last().name@ + ".cute"@) == module_file(root, u.path@, n));
    }
}

/// Every import that is not one of Qt's is followed.
pub proof fn law_imports_are_followed(root: Seq<char>, items: Seq<Item>, i: int, n: int)
    requires
        0 <= i < n <= items.len(),
        items[i] matches Item::Use(u) && names_a_module(u),
    ensures
        use_targets(root, items, n).contains(
            (
                join(segment_names((items[i]->Use_0).path@), "."@),
                module_file(
                    root,
                    (items[i]->Use_0).path@,
                    (items[i]->Use_0).path@.len() as int,
                ),
            ),
        ),
    decreases n,
{
    let u = items[i]->Use_0;
    let x = (join(segment_names(u.path@), "."@), module_file(root, u.path@, u.path@.len() as int));
    let before = use_targets(root, items, n - 1);
    if i < n - 1 {
        law_imports_are_followed(root, items, i, n - 1);
    }
    if let Item::Use(w) = items[n - 1] {
        lemma_pushed_if(
            before,
            (join(segment_names(w.path@), "."@), module_file(root, w.path@, w.path@.len() as int)),
            x,
        );
    }
}

// ---- names that collide ------------------------------------------------------------

/// The names of all items must be unique but those of functions; imports,
/// implementations and suites have none.
pub proof fn law_names_that_must_be_unique(item: Item)
    ensures
        unique_name(item) is None <==> (item is Fn || item is Use || item is UseQml || item is Impl
            || item is Suite),
        match item {
            Item::Class(d) => unique_name(item) == Some((d.name.name@, d.name.span)),
            Item::Struct(d) => unique_name(item) == Some((d.name.name@, d.name.span)),
            Item::View(d) => unique_name(item) == Some((d.name.name@, d.name.span)),
            Item::Widget(d) => unique_name(item) == Some((d.name.name@, d.name.span)),
            Item::Style(d) => unique_name(item) == Some((d.name.name@, d.name.span)),
            Item::Trait(d) => unique_name(item) == Some((d.name.name@, d.name.span)),
            Item::Let(d) => unique_name(item) == Some((d.name.name@, d.name.span)),
            Item::Enum(d) => unique_name(item) == Some((d.name.name@, d.name.span)),
            Item::Flags(d) => unique_name(item) == Some((d.name.name@, d.name.span)),
            Item::Store(d) => unique_name(item) == Some((d.name.name@, d.name.span)),
            _ => true,
        },
{
}

/// Item `i` has this unique name, and no item before it has.
pub open spec fn is_first(items: Seq<Item>, name: Seq<char>, i: int) -> bool {
    &&& 0 <= i < items.len()
    &&& unique_name(items[i]) matches Some(d) && d.0 == name
    &&& forall|k: int|
        0 <= k < i ==> !(unique_name(#[trigger] items[k]) matches Some(d) && d.0 == name)
}

proof fn lemma_first_declared(items: Seq<Item>, name: Seq<char>, i: int, n: int)
    requires
        is_first(items, name, i),
        i < n <= items.len(),
    ensures
        first_declared(items, name, n) == Some((unique_name(items[i])->0).1),
    decreases n,
{
    if n == i + 1 {
        lemma_none_declared(items, name, i);
    } else {
        lemma_first_declared(items, name, i, n - 1);
    }
}

proof fn lemma_none_declared(items: Seq<Item>, name: Seq<char>, n: int)
    requires
        0 <= n <= items.len(),
        forall|k: int|
            0 <= k < n ==> !(unique_name(#[trigger] items[k]) matches Some(d) && d.0 == name),
    ensures
        first_declared(items, name, n) is None,
    decreases n,
{
    if n > 0 {
        lemma_none_declared(items, name, n - 1);
        assert(!(unique_name(items[n - 1]) matches Some(d) && d.0 == name));
    }
}

/// A name that is declared again is told of, at its place, together with the
/// place of the first declaration.
pub proof fn law_second_declarations_are_told_of(
    items: Seq<Item>,
    name: Seq<char>,
    i: int,
    j: int,
    n: int,
)
    requires
        is_first(items, name, i),
        i < j < n <= items.len(),
        unique_name(items[j]) matches Some(d) && d.0 == name,
    ensures
        duplicates(items, n).contains(
            (name, (unique_name(items[j])->0).1, (unique_name(items[i])->0).1),
        ),
    decreases n,
{
    let x = (name, (unique_name(items[j])->0).1, (unique_name(items[i])->0).1);
    let before = duplicates(items, n - 1);
    if j == n - 1 {
        lemma_first_declared(items, name, i, j);
        lemma_pushed(before, x, x);
    } else {
        law_second_declarations_are_told_of(items, name, i, j, n - 1);
        if let Some((m, s)) = unique_name(items[n - 1]) {
            if let Some(prev) = first_declared(items, m, n - 1) {
                lemma_pushed(before, (m, s, prev), x);
            }
        }
    }
}

/// A module in which no two items share a name that must be unique has no
/// duplicates, however many functions share one.
pub proof fn law_no_collision_no_error(items: Seq<Item>, n: int)
    requires
        0 <= n <= items.len(),
        forall|i: int, j: int|
            #![trigger items[i], items[j]]
            0 <= i < j < items.len() && unique_name(items[i]) is Some && unique_name(items[j])
                is Some ==> (unique_name(items[i])->0).0 != (unique_name(items[j])->0).0,
    ensures
        duplicates(items, n).len() == 0,
    decreases n,
{
    if n > 0 {
        law_no_collision_no_error(items, n - 1);
        if let Some((m, s)) = unique_name(items[n - 1]) {
            assert forall|k: int| 0 <= k < n - 1 implies !(unique_name(
                #[trigger] items[k],
            ) matches Some(d) && d.0 == m) by {
                if unique_name(items[k]) is Some {
                    assert((unique_name(items[k])->0).0 != (unique_name(items[n - 1])->0).0);
                }
            }
            lemma_none_declared(items, m, n - 1);
        }
    }
}

/// The errors of two lists are counted together, and a single entry counts
/// where it is an error.
pub proof fn law_errors_add_up(a: Seq<Diagnostic>, b: Seq<Diagnostic>, n: int)
    requires
        0 <= n <= b.len(),
    ensures
        errors_among(a + b, a.len() + n) == errors_among(a, a.len() as int) + errors_among(b, n),
        forall|d: Diagnostic| #[trigger]
            errors_among(seq![d], 1) == (if d.severity == Severity::Error {
                1int
            } else {
                0int
            }),
    decreases n,
{
    reveal_with_fuel(errors_among, 2);
    if n > 0 {
        law_errors_add_up(a, b, n - 1);
        assert((a + b)[a.len() + n - 1] == b[n - 1]);
    } else {
        lemma_errors_front(a, b, a.len() as int);
    }
}

proof fn lemma_errors_front(a: Seq<Diagnostic>, b: Seq<Diagnostic>, n: int)
    requires
        0 <= n <= a.len(),
    ensures
        errors_among(a + b, n) == errors_among(a, n),
    decreases n,
{
    if n > 0 {
        lemma_errors_front(a, b, n - 1);
        assert((a + b)[n - 1] == a[n - 1]);
    }
}

// ---- merging -----------------------------------------------------------------------

/// The items of modules stand one module after another, each module's items in
/// their order.
pub proof fn law_items_keep_their_order(ms: Seq<Module>, m: int, i: int, n: int) -> (r: int)
    requires
        0 <= m < n <= ms.len(),
        0 <= i < ms[m].items@.len(),
    ensures
        0 <= r < all_items(ms, n).len(),
        r == all_items(ms, m).len() + i,
        all_items(ms, n)[r] == ms[m].items@[i],
    decreases n,
{
    if m == n - 1 {
        all_items(ms, m).len() + i
    } else {
        law_items_keep_their_order(ms, m, i, n - 1)
    }
}

// ---- the generated header ----------------------------------------------------------

/// What is added to a header that starts with `#pragma once` stands behind that
/// line.
pub proof fn law_pragma_stays_first(rest: Seq<char>, extra: Seq<char>)
    ensures
        prepended("#pragma once\n"@ + rest, extra) == "#pragma once\n"@ + extra + rest,
{
    let p = "#pragma once\n"@;
    let h = p + rest;
    assert(h.subrange(0, p.len() as int) =~= p);
    assert(matches_at(h, p, 0));
    assert(find_from(h, p, 0) == Some(0int));
    assert(h.subrange(p.len() as int, h.len() as int) =~= rest);
}

proof fn lemma_join_holds(parts: Seq<Seq<char>>, sep: Seq<char>, i: int)
    requires
        0 <= i < parts.len(),
    ensures
        contains(join(parts, sep), parts[i]),
    decreases parts.len(),
{
    if parts.len() == 1 {
        assert(parts[0].subrange(0, parts[0].len() as int) =~= parts[0]);
        assert(matches_at(parts[0], parts[0], 0));
    } else {
        let rest = parts.drop_last();
        let front = join(rest, sep);
        if i < parts.len() - 1 {
            lemma_join_holds(rest, sep, i);
            lemma_extends_add(front, sep + parts.last());
            assert(front + sep + parts.last() =~= front + (sep + parts.last()));
            lemma_extends_contains(front, front + (sep + parts.last()), rest[i]);
        } else {
            lemma_ends_contains(front + sep, parts.last());
        }
    }
}

pub(crate) proof fn lemma_prepended_holds(header: Seq<char>, extra: Seq<char>, p: Seq<char>)
    requires
        contains(extra, p),
    ensures
        contains(prepended(header, extra), p),
{
    let k = choose|k: int| matches_at(extra, p, k);
    crate::text::lemma_find_from(header, "#pragma once\n"@, 0);
    let at = match find_from(header, "#pragma once\n"@, 0) {
        Some(i) => i + "#pragma once\n"@.len(),
        None => 0,
    };
    let r = prepended(header, extra);
    assert(r.subrange(at + k, at + k + p.len()) =~= extra.subrange(k, k + p.len()));
    assert(matches_at(r, p, at + k));
}

/// Every header that the manifest names and the header of every library that
/// it depends on is read by the generated header.
pub proof fn law_asked_headers_are_read(header: Seq<char>, manifest: Manifest, i: int)
    ensures
        0 <= i < manifest.cpp.includes@.len() ==> contains(
            with_includes(header, manifest),
            "#include "@ + manifest.cpp.includes@[i]@,
        ),
        0 <= i < manifest.cute_libraries.deps@.len() ==> contains(
            with_includes(header, manifest),
            "#include <"@ + manifest.cute_libraries.deps@[i]@ + ".h>"@,
        ),
        manifest.cpp.includes@.len() == 0 && manifest.cute_libraries.deps@.len() == 0
            ==> with_includes(header, manifest) == header,
{
    let lines = include_lines(manifest);
    let own = manifest.cpp.includes@;
    let libs = manifest.cute_libraries.deps@;
    let extra = join(lines, "\n"@) + "\n"@;
    reveal_strlit("");
    if 0 <= i < own.len() {
        assert("#include "@ + own[i]@ + ""@ =~= "#include "@ + own[i]@);
        assert(views(own)[i] == own[i]@);
        assert(lines[i] == "#include "@ + own[i]@);
        lemma_join_holds(lines, "\n"@, i);
        lemma_extends_add(join(lines, "\n"@), "\n"@);
        lemma_extends_contains(join(lines, "\n"@), extra, lines[i]);
        lemma_prepended_holds(header, extra, lines[i]);
    }
    if 0 <= i < libs.len() {
        assert(views(libs)[i] == libs[i]@);
        let at = own.len() + i;
        assert(lines[at] == "#include <"@ + libs[i]@ + ".h>"@);
        lemma_join_holds(lines, "\n"@, at);
        lemma_extends_add(join(lines, "\n"@), "\n"@);
        lemma_extends_contains(join(lines, "\n"@), extra, lines[at]);
        lemma_prepended_holds(header, extra, lines[at]);
    }
}

// ---- styles ------------------------------------------------------------------------

/// Of several styles of one name, the last declared one counts.
pub proof fn law_last_style_counts(items: Seq<Item>, d: StyleDecl, i: int, n: int)
    requires
        0 <= i < n <= items.len(),
        items[i] == Item::Style(d),
        forall|k: int|
            i < k < n ==> !(#[trigger] items[k] matches Item::Style(s) && s.name.name@
                == d.name.name@),
    ensures
        style_decl(items, d.name.name@, n) == Some(d),
    decreases n,
{
    if i < n - 1 {
        assert(!(items[n - 1] matches Item::Style(s) && s.name.name@ == d.name.name@));
        law_last_style_counts(items, d, i, n - 1);
    }
}

/// A style that lists its entries stands for these entries, in their order.
pub proof fn law_listed_entries_are_the_style(items: Seq<Item>, d: StyleDecl, k: int)
    requires
        style_decl(items, d.name.name@, items.len() as int) == Some(d),
        d.body matches StyleBody::Lit(es) && 0 <= k < es@.len(),
    ensures
        ({
            let es = (d.body->Lit_0)@;
            style_of(items, d.name.name@) matches Ok(got) && got.len() == es.len() && got[k].0
                == es[k].key@ && got[k].1 == es[k].value
        }),
{
}

/// A name that no style has cannot be resolved, and the fault names it.
pub proof fn law_unknown_styles_are_faults(items: Seq<Item>, name: Seq<char>)
    requires
        style_decl(items, name, items.len() as int) is None,
    ensures
        style_of(items, name) == Err::<Seq<(Seq<char>, Expr)>, Fault>(Fault::Unknown(name)),
{
}

proof fn lemma_styled_room(
    resolved: Map<Seq<char>, Vec<(String, Expr)>>,
    members: Seq<ElementMember>,
    i: int,
    n: int,
)
    requires
        0 <= i < n,
    ensures
        0 <= styled_count(resolved, members, i),
        styled_count(resolved, members, i) + (match spliced(resolved, members[i]) {
            Some(e) => e.len() as int,
            None => 1int,
        }) <= styled_count(resolved, members, n),
    decreases n,
{
    if i < n - 1 {
        lemma_styled_room(resolved, members, i, n - 1);
    } else if i > 0 {
        lemma_styled_room(resolved, members, i - 1, i);
    }
}

/// Where an element had `style: name`, the styled one has a property for each
/// entry of that style, with its key and value.
pub proof fn law_style_entries_become_properties(
    resolved: Map<Seq<char>, Vec<(String, Expr)>>,
    a: Element,
    b: Element,
    i: int,
    name: Seq<char>,
    k: int,
) -> (r: int)
    requires
        element_styled(resolved, a, b),
        0 <= i < a.members@.len(),
        a.members@[i] matches ElementMember::Property { key, value, span } && key@ == "style"@ && (
        value.kind matches ExprKind::Ident(n) && n@ == name),
        resolved.contains_key(name),
        0 <= k < resolved[name]@.len(),
    ensures
        0 <= r < b.members@.len(),
        b.members@[r] matches ElementMember::Property { key, value, span } && key@
            == resolved[name]@[k].0@ && same_expr(resolved[name]@[k].1, value),
{
    let at = styled_count(resolved, a.members@, i);
    let e = spliced(resolved, a.members@[i])->0;
    assert(member_styled(resolved, a.members[i], b.members@, at));
    lemma_styled_room(resolved, a.members@, i, a.members@.len() as int);
    assert(e.len() == resolved[name]@.len());
    assert(is_property(e[k], member_span(a.members@[i]), b.members@[at + k]));
    at + k
}

/// A sum of styles stands for both, and where both have a key for the right
/// one.
pub proof fn law_sums_of_styles(
    resolved: Map<Seq<char>, Vec<(String, Expr)>>,
    e: Expr,
    l: Seq<(Seq<char>, Expr)>,
    r: Seq<(Seq<char>, Expr)>,
    k: int,
)
    requires
        e.kind matches ExprKind::Binary { op, lhs, rhs } && op == BinOp::Add && expr_entries(
            resolved,
            *lhs,
        ) == Some(l) && expr_entries(resolved, *rhs) == Some(r),
    ensures
        expr_entries(resolved, e) is Some,
        0 <= k < r.len() ==> (expr_entries(resolved, e)->0).contains(r[k]),
        0 <= k < l.len() && (forall|j: int| 0 <= j < r.len() ==> (#[trigger] r[j]).0 != l[k].0) ==> (
        expr_entries(resolved, e)->0).contains(l[k]),
{
    crate::style::law_right_wins(l, r);
    assert(expr_entries(resolved, e) == Some(merged(l, r)));
}

/// Styling changes the trees of views and widgets alone: their names,
/// parameters and fields stay, and so does every other item.
pub proof fn law_styling_changes_trees_alone(env: StyleEnv, a: Module, b: Module, i: int)
    requires
        module_styled(env, a, b),
        0 <= i < a.items@.len(),
    ensures
        b.items@.len() == a.items@.len(),
        match (a.items@[i], b.items@[i]) {
            (Item::View(v), Item::View(w)) => {
                &&& words_ident(v.name) == words_ident(w.name)
                &&& words_params(v.params, v.params@.len()) == words_params(
                    w.params,
                    w.params@.len(),
                )
                &&& words_state_fields(v.state_fields, v.state_fields@.len())
                    == words_state_fields(w.state_fields, w.state_fields@.len())
                &&& v.is_pub == w.is_pub
                &&& v.root.name.name@ == w.root.name.name@
            },
            (Item::Widget(v), Item::Widget(w)) => {
                &&& words_ident(v.name) == words_ident(w.name)
                &&& words_params(v.params, v.params@.len()) == words_params(
                    w.params,
                    w.params@.len(),
                )
                &&& words_state_fields(v.state_fields, v.state_fields@.len())
                    == words_state_fields(w.state_fields, w.state_fields@.len())
                &&& v.is_pub == w.is_pub
                &&& v.root.name.name@ == w.root.name.name@
            },
            _ => words_item(a.items@[i]) == words_item(b.items@[i]),
        },
{
    assert(item_styled(env.resolved@, a.items@[i], b.items@[i]));
    match a.items@[i] {
        Item::View(v) => {
            let w = b.items@[i]->View_0;
            lemma_params(v.params, w.params, v.params@.len());
            lemma_state_fields(v.state_fields, w.state_fields, v.state_fields@.len());
        },
        Item::Widget(v) => {
            let w = b.items@[i]->Widget_0;
            lemma_params(v.params, w.params, v.params@.len());
            lemma_state_fields(v.state_fields, w.state_fields, v.state_fields@.len());
        },
        _ => {
            law_copied_items_hold_all_words(a.items@[i], b.items@[i]);
        },
    }
}

/// The items of merged modules hold all that the items of the modules hold.
pub proof fn law_merged_items_hold_all_words(ms: Seq<Module>, r: Module, m: int, i: int) -> (k: int)
    requires
        is_merged(ms, r),
        0 <= m < ms.len(),
        0 <= i < ms[m].items@.len(),
    ensures
        0 <= k < r.items@.len(),
        k == all_items(ms, m).len() + i,
        words_item(r.items@[k]) == words_item(ms[m].items@[i]),
{
    let k = law_items_keep_their_order(ms, m, i, ms.len() as int);
    let all = all_items(ms, ms.len() as int);
    assert(crate::ast_copy::same_item(all[k], r.items@[k]));
    law_copied_items_hold_all_words(all[k], r.items@[k]);
    k
}

/// A combined module holds the items of the bindings first, and then those of
/// the user.
pub proof fn law_bindings_come_first(user: Module, bindings: Seq<Module>, r: Module, i: int)
    requires
        is_combined(user, bindings, r),
        0 <= i < user.items@.len(),
    ensures
        r.items@.len() == all_items(bindings, bindings.len() as int).len() + user.items@.len(),
        words_item(
            r.items@[all_items(bindings, bindings.len() as int).len() + i],
        ) == words_item(user.items@[i]),
{
    let b = all_items(bindings, bindings.len() as int);
    let all = b + user.items@;
    let k = b.len() + i;
    assert(all[k] == user.items@[i]);
    assert(crate::ast_copy::same_item(all[k], r.items@[k]));
    law_copied_items_hold_all_words(all[k], r.items@[k]);
}

// ---- lowering ----------------------------------------------------------------------

/// After lowering, no widget declares state of its own, and no suite and no store
/// is left.
pub proof fn law_lowered_modules_are_plain(
    ms: Seq<Module>,
    m: Module,
    s: Module,
    t: Module,
    r: Module,
    j: int,
    k: int,
)
    requires
        lowering_steps(ms, m, s, t, r),
        0 <= j < r.items@.len(),
    ensures
        match r.items@[j] {
            Item::Widget(w) => 0 <= k < w.state_fields@.len() ==> w.state_fields@[k].kind is Object,
            Item::Suite(_) | Item::Store(_) => false,
            _ => true,
        },
{
    law_lowered_has_no_suite_or_store(ms, m, s, t, r);
    assert(!(r.items@[j] is Store) && !(r.items@[j] is Suite));
    law_no_state_remains(t, r, j);
    if let Item::Widget(w) = r.items@[j] {
        if 0 <= k < w.state_fields@.len() && !(w.state_fields@[k].kind is Object) {
            lemma_state_counts(w.state_fields@, k, w.state_fields@.len() as int);
        }
    }
}

proof fn lemma_state_counts(fields: Seq<StateField>, k: int, n: int)
    requires
        0 <= k < n <= fields.len(),
        fields[k].kind is Property,
    ensures
        prop_fields(fields, n).len() > 0,
    decreases n,
{
    if k < n - 1 {
        lemma_state_counts(fields, k, n - 1);
    }
}

/// What is checked and what is emitted refer to classes by the names of one
/// table: every reference of either follows it.
pub proof fn law_both_views_follow_one_table(
    user_modules: Seq<Module>,
    bindings: Seq<Module>,
    project: ProjectInfo,
    u: Module,
    c: Module,
    p: Prepared,
)
    requires
        preparation(user_modules, bindings, project, u, c, p),
    ensures
        refs_follow(p.names, refs_module(project, c), refs_module(project, p.combined)),
        refs_follow(p.names, refs_module(project, u), refs_module(project, p.user)),
        p.user.items@.len() == u.items@.len(),
        p.combined.items@.len() == all_items(bindings, bindings.len() as int).len()
            + u.items@.len(),
{
    law_every_reference_is_renamed(p.names, project, c, p.combined);
    law_every_reference_is_renamed(p.names, project, u, p.user);
}

/// Sources are read from the entry file, then from the files that the manifest
/// names, seen from its directory, and then from the extra files.
pub proof fn law_sources_start_with_the_entry(
    input: Seq<char>,
    dir: Option<Seq<char>>,
    listed: Seq<Seq<char>>,
    extras: Seq<Seq<char>>,
    i: int,
)
    ensures
        ({
            let f = first_files(input, dir, listed, extras);
            let n = if dir is Some {
                listed.len() as int
            } else {
                0
            };
            &&& f.len() == 1 + n + extras.len()
            &&& f[0] == input
            &&& 0 <= i < n ==> f[1 + i] == path_join(dir->0, listed[i])
            &&& 0 <= i < extras.len() ==> f[1 + n + i] == extras[i]
        }),
{
}

} // verus!
