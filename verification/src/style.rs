//! Styles. A style is a list of properties or a sum of other styles, and
//! leaves no trace of its own: every `style: <expr>` of an element is replaced
//! by the properties that the expression stands for.

use crate::ast::{
    BinOp, Block, CaseArm, Element, ElementMember, Expr, ExprKind, Ident, Item, LetBinding,
    MapEntry, Module, Param, Stmt, StrPart, StyleBody, StyleDecl, StyleEntry, ViewDecl, WidgetDecl,
};
use crate::ast_copy::{
    copy_element_member, copy_expr, copy_ident, copy_idents, copy_item, copy_opt_type_expr,
    copy_params, copy_pattern, copy_state_fields, copy_type_expr, copy_type_exprs,
    same_element_member, same_expr, same_ident, same_idents, same_item, same_opt_type_expr,
    same_params, same_pattern, same_state_fields, same_type_expr, same_type_exprs,
};
use crate::dict::Dict;
use crate::text::{contains_string, same, views};
use vstd::prelude::*;

verus! {

/// Why the styles of a module cannot be resolved.
#[derive(Debug)]
pub enum EmitError {
    /// The style refers to itself.
    StyleCycle(String),
    /// No style of this name is declared.
    UnknownStyle(String),
    /// A style is defined by something other than names and `+`.
    UnsupportedStyleExpr,
}

/// Why a style cannot be resolved.
pub enum Fault {
    Cycle(Seq<char>),
    Unknown(Seq<char>),
    Unsupported,
}

pub open spec fn fault_of(e: EmitError) -> Fault {
    match e {
        EmitError::StyleCycle(n) => Fault::Cycle(n@),
        EmitError::UnknownStyle(n) => Fault::Unknown(n@),
        EmitError::UnsupportedStyleExpr => Fault::Unsupported,
    }
}

// ---- resolution -----------------------------------------------------------------

/// The declaration of the style `name` among the first `n` items: the last one
/// where there are several.
pub open spec fn style_decl(items: Seq<Item>, name: Seq<char>, n: int) -> Option<StyleDecl>
    decreases n,
{
    if n <= 0 {
        None
    } else {
        match items[n - 1] {
            Item::Style(s) => if s.name.name@ == name {
                Some(s)
            } else {
                style_decl(items, name, n - 1)
            },
            _ => style_decl(items, name, n - 1),
        }
    }
}

/// The entries of a literal style.
pub open spec fn literal_entries(es: Seq<StyleEntry>) -> Seq<(Seq<char>, Expr)> {
    Seq::new(es.len(), |i: int| (es[i].key@, es[i].value))
}

/// `e` has an entry under `key`.
pub open spec fn has_key(e: Seq<(Seq<char>, Expr)>, key: Seq<char>) -> bool {
    exists|i: int| 0 <= i < e.len() && (#[trigger] e[i]).0 == key
}

/// The entries of `l` under keys that `r` has not.
pub open spec fn not_overridden(
    l: Seq<(Seq<char>, Expr)>,
    r: Seq<(Seq<char>, Expr)>,
) -> Seq<(Seq<char>, Expr)>
    decreases l.len(),
{
    if l.len() == 0 {
        Seq::empty()
    } else if has_key(r, l.last().0) {
        not_overridden(l.drop_last(), r)
    } else {
        not_overridden(l.drop_last(), r).push(l.last())
    }
}

/// The sum of two styles: the right one wins.
pub open spec fn merged(
    l: Seq<(Seq<char>, Expr)>,
    r: Seq<(Seq<char>, Expr)>,
) -> Seq<(Seq<char>, Expr)> {
    not_overridden(l, r) + r
}

/// What the style `name` stands for, reached through the styles of `path`. A
/// path never holds more names than there are items.
pub open spec fn named_style(
    items: Seq<Item>,
    name: Seq<char>,
    path: Seq<Seq<char>>,
) -> Result<Seq<(Seq<char>, Expr)>, Fault>
    decreases items.len() + 1 - path.len(), 0int,
{
    if path.contains(name) || path.len() > items.len() {
        Err(Fault::Cycle(name))
    } else {
        match style_decl(items, name, items.len() as int) {
            Some(d) => match d.body {
                StyleBody::Lit(es) => Ok(literal_entries(es@)),
                StyleBody::Alias(rhs) => style_sum(items, rhs, path.push(name)),
            },
            None => Err(Fault::Unknown(name)),
        }
    }
}

/// What a style expression stands for: names and sums of names.
pub open spec fn style_sum(
    items: Seq<Item>,
    e: Expr,
    path: Seq<Seq<char>>,
) -> Result<Seq<(Seq<char>, Expr)>, Fault>
    decreases items.len() + 1 - path.len(), 1int, e,
{
    match e.kind {
        ExprKind::Ident(name) => named_style(items, name@, path),
        ExprKind::Binary { op, lhs, rhs } => if op == BinOp::Add {
            match style_sum(items, *lhs, path) {
                Ok(l) => match style_sum(items, *rhs, path) {
                    Ok(r) => Ok(merged(l, r)),
                    Err(f) => Err(f),
                },
                Err(f) => Err(f),
            }
        } else {
            Err(Fault::Unsupported)
        },
        _ => Err(Fault::Unsupported),
    }
}

/// The list holds copies of the entries.
pub open spec fn entries_copied(e: Seq<(Seq<char>, Expr)>, v: Seq<(String, Expr)>) -> bool {
    &&& v.len() == e.len()
    &&& forall|i: int|
        0 <= i < e.len() ==> v[i].0@ == (#[trigger] e[i]).0 && same_expr(e[i].1, v[i].1)
}

/// The result holds copies of what was resolved, or says why nothing was.
pub open spec fn outcome(
    want: Result<Seq<(Seq<char>, Expr)>, Fault>,
    got: Result<Vec<(String, Expr)>, EmitError>,
) -> bool {
    match got {
        Ok(v) => want is Ok && entries_copied(want->Ok_0, v@),
        Err(e) => want == Err::<Seq<(Seq<char>, Expr)>, Fault>(fault_of(e)),
    }
}

/// A list of entries by its keys and values.
pub open spec fn entries_of(v: Seq<(String, Expr)>) -> Seq<(Seq<char>, Expr)> {
    Seq::new(v.len(), |i: int| (v[i].0@, v[i].1))
}

fn find_style<'a>(items: &'a Vec<Item>, name: &str) -> (r: Option<&'a StyleDecl>)
    ensures
        match r {
            Some(d) => style_decl(items@, name@, items@.len() as int) == Some(*d),
            None => style_decl(items@, name@, items@.len() as int) is None,
        },
{
    let mut i: usize = items.len();
    while i > 0
        invariant
            i <= items@.len(),
            style_decl(items@, name@, items@.len() as int) == style_decl(items@, name@, i as int),
        decreases i,
    {
        match &items[i - 1] {
            Item::Style(s) => {
                if same(s.name.name.as_str(), name) {
                    return Some(s);
                }
            },
            _ => {},
        }
        i -= 1;
    }
    None
}

/// Copies of the entries of a literal style.
pub fn entries_from_literal(es: &Vec<StyleEntry>) -> (r: Vec<(String, Expr)>)
    ensures
        entries_copied(literal_entries(es@), r@),
{
    let mut out: Vec<(String, Expr)> = Vec::new();
    let mut i: usize = 0;
    while i < es.len()
        invariant
            i <= es@.len(),
            out@.len() == i,
            forall|j: int|
                0 <= j < i ==> out@[j].0@ == (#[trigger] literal_entries(es@)[j]).0 && same_expr(
                    literal_entries(es@)[j].1,
                    out@[j].1,
                ),
        decreases es@.len() - i,
    {
        out.push((es[i].key.clone(), copy_expr(&es[i].value)));
        i += 1;
    }
    out
}

fn list_has_key(v: &Vec<(String, Expr)>, key: &str) -> (r: bool)
    ensures
        r == has_key(entries_of(v@), key@),
{
    let mut i: usize = 0;
    while i < v.len()
        invariant
            i <= v@.len(),
            forall|j: int| 0 <= j < i ==> (#[trigger] entries_of(v@)[j]).0 != key@,
        decreases v@.len() - i,
    {
        if same(v[i].0.as_str(), key) {
            assert(entries_of(v@)[i as int].0 == key@);
            return true;
        }
        i += 1;
    }
    false
}

/// Copies have the keys of what they copy.
proof fn lemma_copied_keys(e: Seq<(Seq<char>, Expr)>, v: Seq<(String, Expr)>, key: Seq<char>)
    requires
        entries_copied(e, v),
    ensures
        has_key(e, key) == has_key(entries_of(v), key),
{
    if has_key(e, key) {
        let i = choose|i: int| 0 <= i < e.len() && (#[trigger] e[i]).0 == key;
        assert(entries_of(v)[i].0 == key);
    }
    if has_key(entries_of(v), key) {
        let i = choose|i: int| 0 <= i < entries_of(v).len() && (#[trigger] entries_of(v)[i]).0 == key;
        assert(e[i].0 == key);
    }
}

/// The sum of two lists of entries: the right one wins. What stays of the left
/// comes first.
pub fn merge_entries(lhs: Vec<(String, Expr)>, rhs: Vec<(String, Expr)>) -> (r: Vec<(String, Expr)>)
    ensures
        entries_of(r@) == merged(entries_of(lhs@), entries_of(rhs@)),
{
    let ghost l = entries_of(lhs@);
    let ghost ls = lhs@;
    let mut out: Vec<(String, Expr)> = Vec::new();
    assert(entries_of(out@) =~= not_overridden(l.take(0), entries_of(rhs@)));
    for entry in it: lhs
        invariant
            it.seq() == ls,
            l == entries_of(ls),
            entries_of(out@) == not_overridden(l.take(it.index() as int), entries_of(rhs@)),
    {
        let ghost i = it.index() as int;
        let ghost before = out@;
        let ghost this = entry;
        assert(this == ls[i]);
        assert(l.take(i + 1).drop_last() =~= l.take(i));
        assert(l.take(i + 1).last() == (this.0@, this.1));
        if !list_has_key(&rhs, entry.0.as_str()) {
            out.push(entry);
            assert(entries_of(out@) =~= entries_of(before).push((this.0@, this.1)));
        }
    }
    assert(l.take(l.len() as int) =~= l);
    let ghost kept = entries_of(out@);
    let mut rhs = rhs;
    let ghost rs = rhs@;
    out.append(&mut rhs);
    assert(entries_of(out@) =~= kept + entries_of(rs));
    out
}

/// Merging copies gives copies of the merge.
proof fn lemma_merge_copied(
    el: Seq<(Seq<char>, Expr)>,
    er: Seq<(Seq<char>, Expr)>,
    vl: Seq<(String, Expr)>,
    vr: Seq<(String, Expr)>,
    out: Seq<(String, Expr)>,
)
    requires
        entries_copied(el, vl),
        entries_copied(er, vr),
        entries_of(out) == merged(entries_of(vl), entries_of(vr)),
    ensures
        entries_copied(merged(el, er), out),
{
    lemma_kept_copied(el, er, vl, vr);
    let a = not_overridden(el, er);
    let b = not_overridden(entries_of(vl), entries_of(vr));
    assert(out.len() == entries_of(out).len());
    assert(out.len() == merged(el, er).len());
    assert forall|i: int| 0 <= i < merged(el, er).len() implies out[i].0@ == (#[trigger] merged(el, er)[i]).0
        && same_expr(merged(el, er)[i].1, out[i].1) by {
        assert(entries_of(out)[i] == (out[i].0@, out[i].1));
        assert(entries_of(out)[i] == merged(entries_of(vl), entries_of(vr))[i]);
        if i < a.len() {
            assert(merged(el, er)[i] == a[i]);
            assert(merged(entries_of(vl), entries_of(vr))[i] == b[i]);
            assert(a[i].0 == b[i].0);
        } else {
            let k = i - a.len();
            assert(merged(el, er)[i] == er[k]);
            assert(merged(entries_of(vl), entries_of(vr))[i] == entries_of(vr)[k]);
            assert(er[k].0 == vr[k].0@);
            assert(entries_of(vr)[k] == (vr[k].0@, vr[k].1));
        }
    }
}

proof fn lemma_kept_copied(
    el: Seq<(Seq<char>, Expr)>,
    er: Seq<(Seq<char>, Expr)>,
    vl: Seq<(String, Expr)>,
    vr: Seq<(String, Expr)>,
)
    requires
        entries_copied(el, vl),
        entries_copied(er, vr),
    ensures
        not_overridden(el, er).len() == not_overridden(entries_of(vl), entries_of(vr)).len(),
        forall|i: int|
            0 <= i < not_overridden(el, er).len() ==> (#[trigger] not_overridden(el, er)[i]).0
                == not_overridden(entries_of(vl), entries_of(vr))[i].0 && same_expr(
                not_overridden(el, er)[i].1,
                not_overridden(entries_of(vl), entries_of(vr))[i].1,
            ),
    decreases el.len(),
{
    if el.len() > 0 {
        let n = el.len() - 1;
        assert(el[n].0 == vl[n].0@);
        assert(entries_of(vl).drop_last() =~= entries_of(vl.drop_last()));
        assert forall|i: int| 0 <= i < el.drop_last().len() implies vl.drop_last()[i].0@ == (
        #[trigger] el.drop_last()[i]).0 && same_expr(el.drop_last()[i].1, vl.drop_last()[i].1) by {
            assert(el[i].0 == vl[i].0@);
        }
        lemma_kept_copied(el.drop_last(), er, vl.drop_last(), vr);
        lemma_copied_keys(er, vr, el.last().0);
    }
}

/// A path of different declared styles is no longer than the list of items.
proof fn lemma_path_bound(items: Seq<Item>, path: Seq<Seq<char>>)
    requires
        path.no_duplicates(),
        forall|i: int|
            0 <= i < path.len() ==> style_decl(items, #[trigger] path[i], items.len() as int) is Some,
    ensures
        path.len() <= items.len(),
{
    let places = Seq::new(path.len(), |i: int| place(items, path[i], items.len() as int));
    assert forall|i: int| 0 <= i < places.len() implies 0 <= #[trigger] places[i] < items.len() by {
        lemma_place(items, path[i], items.len() as int);
    }
    assert forall|i: int, j: int| 0 <= i < places.len() && 0 <= j < places.len() && i != j implies places[i]
        != places[j] by {
        lemma_place(items, path[i], items.len() as int);
        lemma_place(items, path[j], items.len() as int);
    }
    assert(places.no_duplicates());
    lemma_distinct_below(places, items.len() as int);
}

/// Different numbers from 0 up to `n` are at most `n` many.
proof fn lemma_distinct_below(s: Seq<int>, n: int)
    requires
        0 <= n,
        s.no_duplicates(),
        forall|i: int| 0 <= i < s.len() ==> 0 <= #[trigger] s[i] < n,
    ensures
        s.len() <= n,
    decreases n,
{
    if s.len() > 0 {
        let first = s[0];
        assert(0 <= first < n);
        if s.contains(n - 1) {
            let k = choose|k: int| 0 <= k < s.len() && s[k] == n - 1;
            let t = s.remove(k);
            assert forall|i: int| 0 <= i < t.len() implies 0 <= #[trigger] t[i] < n - 1 by {
                let oi = if i < k { i } else { i + 1 };
                assert(t[i] == s[oi]);
                assert(s[oi] != s[k]);
            }
            assert forall|i: int, j: int| 0 <= i < t.len() && 0 <= j < t.len() && i != j implies t[i]
                != t[j] by {
                let oi = if i < k { i } else { i + 1 };
                let oj = if j < k { j } else { j + 1 };
                assert(t[i] == s[oi] && t[j] == s[oj]);
            }
            lemma_distinct_below(t, n - 1);
        } else {
            assert forall|i: int| 0 <= i < s.len() implies 0 <= #[trigger] s[i] < n - 1 by {
                assert(s.contains(s[i]));
            }
            lemma_distinct_below(s, n - 1);
        }
    }
}

/// Where the declaration of `name` stands.
pub open spec fn place(items: Seq<Item>, name: Seq<char>, n: int) -> int
    decreases n,
{
    if n <= 0 {
        -1
    } else {
        match items[n - 1] {
            Item::Style(s) => if s.name.name@ == name {
                n - 1
            } else {
                place(items, name, n - 1)
            },
            _ => place(items, name, n - 1),
        }
    }
}

proof fn lemma_place(items: Seq<Item>, name: Seq<char>, n: int)
    requires
        0 <= n <= items.len(),
        style_decl(items, name, n) is Some,
    ensures
        0 <= place(items, name, n) < n,
        match items[place(items, name, n)] {
            Item::Style(s) => s.name.name@ == name,
            _ => false,
        },
    decreases n,
{
    match items[n - 1] {
        Item::Style(s) => {
            if s.name.name@ != name {
                lemma_place(items, name, n - 1);
            }
        },
        _ => {
            lemma_place(items, name, n - 1);
        },
    }
}

/// The path holds different names of declared styles.
pub open spec fn path_ok(items: Seq<Item>, path: Seq<Seq<char>>) -> bool {
    &&& path.no_duplicates()
    &&& forall|i: int|
        0 <= i < path.len() ==> style_decl(items, #[trigger] path[i], items.len() as int) is Some
}

/// The entries of the style `name`, reached through the styles of `path`.
fn resolve_named_style(items: &Vec<Item>, name: &str, path: &Vec<String>) -> (r: Result<
    Vec<(String, Expr)>,
    EmitError,
>)
    requires
        path_ok(items@, views(path@)),
    ensures
        outcome(named_style(items@, name@, views(path@)), r),
    decreases items@.len() + 1 - path@.len(), 0int,
{
    proof {
        lemma_path_bound(items@, views(path@));
    }
    if contains_string(path, name) {
        return Err(EmitError::StyleCycle(name.to_owned()));
    }
    match find_style(items, name) {
        Some(decl) => match &decl.body {
            StyleBody::Lit(es) => Ok(entries_from_literal(es)),
            StyleBody::Alias(rhs) => {
                let mut longer: Vec<String> = Vec::new();
                let mut i: usize = 0;
                while i < path.len()
                    invariant
                        i <= path@.len(),
                        longer@ == path@.take(i as int),
                    decreases path@.len() - i,
                {
                    longer.push(path[i].clone());
                    i += 1;
                    assert(longer@ =~= path@.take(i as int));
                }
                longer.push(name.to_owned());
                proof {
                    let p = views(path@);
                    let q = views(longer@);
                    assert(q =~= p.push(name@));
                    assert forall|a: int, b: int| 0 <= a < q.len() && 0 <= b < q.len() && a != b implies q[a]
                        != q[b] by {
                        if a < p.len() {
                            assert(p.contains(p[a]));
                        }
                        if b < p.len() {
                            assert(p.contains(p[b]));
                        }
                    }
                    assert forall|a: int| 0 <= a < q.len() implies style_decl(
                        items@,
                        #[trigger] q[a],
                        items@.len() as int,
                    ) is Some by {
                        if a < p.len() {
                            assert(q[a] == p[a]);
                        }
                    }
                }
                resolve_style_expr(items, rhs, &longer)
            },
        },
        None => Err(EmitError::UnknownStyle(name.to_owned())),
    }
}

/// The entries of a style expression, reached through the styles of `path`.
fn resolve_style_expr(items: &Vec<Item>, e: &Expr, path: &Vec<String>) -> (r: Result<
    Vec<(String, Expr)>,
    EmitError,
>)
    requires
        path_ok(items@, views(path@)),
    ensures
        outcome(style_sum(items@, *e, views(path@)), r),
    decreases items@.len() + 1 - path@.len(), 1int, *e,
{
    match &e.kind {
        ExprKind::Ident(name) => resolve_named_style(items, name.as_str(), path),
        ExprKind::Binary { op, lhs, rhs } => {
            if *op != BinOp::Add {
                return Err(EmitError::UnsupportedStyleExpr);
            }
            let l = match resolve_style_expr(items, lhs, path) {
                Ok(l) => l,
                Err(f) => {
                    return Err(f);
                },
            };
            let r = match resolve_style_expr(items, rhs, path) {
                Ok(r) => r,
                Err(f) => {
                    return Err(f);
                },
            };
            let ghost vl = l@;
            let ghost vr = r@;
            let out = merge_entries(l, r);
            proof {
                lemma_merge_copied(
                    style_sum(items@, **lhs, views(path@))->Ok_0,
                    style_sum(items@, **rhs, views(path@))->Ok_0,
                    vl,
                    vr,
                    out@,
                );
            }
            Ok(out)
        },
        _ => Err(EmitError::UnsupportedStyleExpr),
    }
}

// ---- the table ------------------------------------------------------------------

/// The styles of a module, each with the entries that it stands for.
#[derive(Debug)]
pub struct StyleEnv {
    pub resolved: Dict<Vec<(String, Expr)>>,
}

/// What the style `name` of a module stands for.
pub open spec fn style_of(items: Seq<Item>, name: Seq<char>) -> Result<
    Seq<(Seq<char>, Expr)>,
    Fault,
> {
    named_style(items, name, Seq::empty())
}

/// The table holds, for each declared style, copies of what it stands for.
pub open spec fn env_of(env: StyleEnv, items: Seq<Item>) -> bool {
    forall|name: Seq<char>| #[trigger]
        env.resolved@.contains_key(name) == (style_decl(items, name, items.len() as int) is Some)
            && (env.resolved@.contains_key(name) ==> style_of(items, name) is Ok && entries_copied(
            style_of(items, name)->Ok_0,
            env.resolved@[name]@,
        ))
}

/// The table holds the styles that the first `n` items declare.
pub open spec fn env_upto(
    resolved: Map<Seq<char>, Vec<(String, Expr)>>,
    items: Seq<Item>,
    n: int,
) -> bool {
    forall|name: Seq<char>| #[trigger]
        resolved.contains_key(name) == (style_decl(items, name, n) is Some) && (
        resolved.contains_key(name) ==> style_of(items, name) is Ok && entries_copied(
            style_of(items, name)->Ok_0,
            resolved[name]@,
        ))
}

/// What a `style:` value stands for: a declared style or a sum of such.
pub open spec fn expr_entries(
    resolved: Map<Seq<char>, Vec<(String, Expr)>>,
    e: Expr,
) -> Option<Seq<(Seq<char>, Expr)>>
    decreases e,
{
    match e.kind {
        ExprKind::Ident(name) => if resolved.contains_key(name@) {
            Some(entries_of(resolved[name@]@))
        } else {
            None
        },
        ExprKind::Binary { op, lhs, rhs } => if op == BinOp::Add {
            match (expr_entries(resolved, *lhs), expr_entries(resolved, *rhs)) {
                (Some(l), Some(r)) => Some(merged(l, r)),
                _ => None,
            }
        } else {
            None
        },
        _ => None,
    }
}

impl StyleEnv {
    /// The table of a module's styles. The error is that of the first declared
    /// style that cannot be resolved.
    pub fn build(module: &Module) -> (r: Result<StyleEnv, EmitError>)
        ensures
            match r {
                Ok(env) => env_of(env, module.items@),
                Err(e) => exists|i: int|
                    0 <= i < module.items@.len() && #[trigger] fails_at(module.items@, i) == Some(
                        fault_of(e),
                    ) && forall|k: int| 0 <= k < i ==> (#[trigger] fails_at(module.items@, k)) is None,
            },
    {
        let items = &module.items;
        let mut resolved: Dict<Vec<(String, Expr)>> = Dict::new();
        let mut i: usize = 0;
        while i < items.len()
            invariant
                i <= items@.len(),
                items@ == module.items@,
                env_upto(resolved@, items@, i as int),
                forall|k: int| 0 <= k < i ==> (#[trigger] fails_at(items@, k)) is None,
            decreases items@.len() - i,
        {
            let ghost before = resolved@;
            match &items[i] {
                Item::Style(s) => {
                    let path: Vec<String> = Vec::new();
                    assert(views(path@) =~= Seq::<Seq<char>>::empty());
                    match resolve_named_style(items, s.name.name.as_str(), &path) {
                        Ok(entries) => {
                            let ghost ev = entries;
                            resolved = resolved.insert(s.name.name.clone(), entries);
                            proof {
                                let nm = s.name.name@;
                                assert forall|name: Seq<char>| #[trigger]
                                    resolved@.contains_key(name) == (style_decl(items@, name, i + 1) is Some)
                                        && (resolved@.contains_key(name) ==> style_of(items@, name) is Ok
                                        && entries_copied(
                                        style_of(items@, name)->Ok_0,
                                        resolved@[name]@,
                                    )) by {
                                    assert(before.contains_key(name) == (style_decl(
                                        items@,
                                        name,
                                        i as int,
                                    ) is Some));
                                    if name == nm {
                                        assert(resolved@[name] == ev);
                                    } else {
                                        assert(resolved@.contains_key(name) == before.contains_key(name));
                                    }
                                }
                            }
                        },
                        Err(e) => {
                            assert(fails_at(items@, i as int) == Some(fault_of(e)));
                            return Err(e);
                        },
                    }
                },
                _ => {
                    assert forall|name: Seq<char>| #[trigger]
                        resolved@.contains_key(name) == (style_decl(items@, name, i + 1) is Some) && (
                        resolved@.contains_key(name) ==> style_of(items@, name) is Ok
                            && entries_copied(style_of(items@, name)->Ok_0, resolved@[name]@)) by {
                        assert(style_decl(items@, name, i + 1) == style_decl(items@, name, i as int));
                    }
                },
            }
            i += 1;
        }
        Ok(StyleEnv { resolved })
    }

    /// Copies of the entries that a `style:` value stands for; none where it is
    /// anything but declared styles and their sums.
    pub fn resolve_expr(&self, e: &Expr) -> (r: Option<Vec<(String, Expr)>>)
        ensures
            match r {
                Some(v) => expr_entries(self.resolved@, *e) is Some && entries_copied(
                    expr_entries(self.resolved@, *e)->0,
                    v@,
                ),
                None => expr_entries(self.resolved@, *e) is None,
            },
        decreases *e,
    {
        match &e.kind {
            ExprKind::Ident(name) => match self.resolved.get(name.as_str()) {
                Some(v) => Some(copy_entries(v)),
                None => None,
            },
            ExprKind::Binary { op, lhs, rhs } => {
                if *op != BinOp::Add {
                    return None;
                }
                let l = match self.resolve_expr(lhs) {
                    Some(l) => l,
                    None => {
                        return None;
                    },
                };
                let r = match self.resolve_expr(rhs) {
                    Some(r) => r,
                    None => {
                        return None;
                    },
                };
                let ghost vl = l@;
                let ghost vr = r@;
                let out = merge_entries(l, r);
                proof {
                    lemma_merge_copied(
                        expr_entries(self.resolved@, **lhs)->0,
                        expr_entries(self.resolved@, **rhs)->0,
                        vl,
                        vr,
                        out@,
                    );
                }
                Some(out)
            },
            _ => None,
        }
    }
}

/// Why item `i` is a style that cannot be resolved.
pub open spec fn fails_at(items: Seq<Item>, i: int) -> Option<Fault> {
    match items[i] {
        Item::Style(s) => match style_of(items, s.name.name@) {
            Ok(_) => None,
            Err(f) => Some(f),
        },
        _ => None,
    }
}

fn copy_entries(v: &Vec<(String, Expr)>) -> (r: Vec<(String, Expr)>)
    ensures
        entries_copied(entries_of(v@), r@),
{
    let mut out: Vec<(String, Expr)> = Vec::new();
    let mut i: usize = 0;
    while i < v.len()
        invariant
            i <= v@.len(),
            out@.len() == i,
            forall|j: int|
                0 <= j < i ==> out@[j].0@ == (#[trigger] entries_of(v@)[j]).0 && same_expr(
                    entries_of(v@)[j].1,
                    out@[j].1,
                ),
        decreases v@.len() - i,
    {
        out.push((v[i].0.clone(), copy_expr(&v[i].1)));
        i += 1;
    }
    out
}

// ---- elements -------------------------------------------------------------------

/// The member is a `style:` whose value the table resolves; the entries that
/// take its place.
pub open spec fn spliced(
    resolved: Map<Seq<char>, Vec<(String, Expr)>>,
    m: ElementMember,
) -> Option<Seq<(Seq<char>, Expr)>> {
    match m {
        ElementMember::Property { key, value, .. } => if key@ == "style"@ {
            expr_entries(resolved, value)
        } else {
            None
        },
        _ => None,
    }
}

/// The number of members that the first `n` members become.
pub open spec fn styled_count(
    resolved: Map<Seq<char>, Vec<(String, Expr)>>,
    members: Seq<ElementMember>,
    n: int,
) -> int
    decreases n,
{
    if n <= 0 {
        0
    } else {
        styled_count(resolved, members, n - 1) + match spliced(resolved, members[n - 1]) {
            Some(e) => e.len() as int,
            None => 1int,
        }
    }
}

/// `b` is the property `key: value` at `span`, with a copy of the value.
pub open spec fn is_property(
    entry: (Seq<char>, Expr),
    span: crate::ast::Span,
    b: ElementMember,
) -> bool {
    match b {
        ElementMember::Property { key, value, span: span2 } => {
            &&& key@ == entry.0
            &&& same_expr(entry.1, value)
            &&& span2 == span
        },
        _ => false,
    }
}

/// Where a member stands.
pub open spec fn member_span(m: ElementMember) -> crate::ast::Span {
    match m {
        ElementMember::Property { span, .. } => span,
        ElementMember::Child(c) => c.span,
        ElementMember::Stmt(_) => crate::ast::Span { file: crate::ast::FileId(0), start: 0, end: 0 },
    }
}

/// What member `a` becomes, in `out` from position `at` on: the entries of its
/// style, or the member with the styles inside it replaced.
pub open spec fn member_styled(
    resolved: Map<Seq<char>, Vec<(String, Expr)>>,
    a: ElementMember,
    out: Seq<ElementMember>,
    at: int,
) -> bool
    decreases a, 1int,
{
    match spliced(resolved, a) {
        Some(e) => forall|k: int|
            0 <= k < e.len() ==> is_property(#[trigger] e[k], member_span(a), out[at + k]),
        None => element_member_styled(resolved, a, out[at]),
    }
}

proof fn lemma_styled_count(
    resolved: Map<Seq<char>, Vec<(String, Expr)>>,
    members: Seq<ElementMember>,
    i: int,
    n: int,
)
    requires
        0 <= i < n,
    ensures
        0 <= styled_count(resolved, members, i),
        styled_count(resolved, members, i) + (match spliced(resolved, members[i]) {
            Some(e) => e.len() as int,
            None => 1int,
        }) <= styled_count(resolved, members, n),
    decreases n,
{
    if i < n - 1 {
        lemma_styled_count(resolved, members, i, n - 1);
    } else if i > 0 {
        lemma_styled_count(resolved, members, i - 1, i);
    }
}

/// What a member became does not change when more is added behind it.
proof fn lemma_member_stable(
    resolved: Map<Seq<char>, Vec<(String, Expr)>>,
    a: ElementMember,
    out: Seq<ElementMember>,
    longer: Seq<ElementMember>,
    at: int,
)
    requires
        member_styled(resolved, a, out, at),
        0 <= at,
        at + (match spliced(resolved, a) {
            Some(e) => e.len() as int,
            None => 1int,
        }) <= out.len(),
        out.len() <= longer.len(),
        forall|k: int| 0 <= k < out.len() ==> longer[k] == #[trigger] out[k],
    ensures
        member_styled(resolved, a, longer, at),
{
    match spliced(resolved, a) {
        Some(e) => {
            assert forall|k: int| 0 <= k < e.len() implies is_property(
                #[trigger] e[k],
                member_span(a),
                longer[at + k],
            ) by {
                assert(is_property(e[k], member_span(a), out[at + k]));
                assert(longer[at + k] == out[at + k]);
            }
        },
        None => {
            assert(longer[at] == out[at]);
        },
    }
}

/// The entries that take the place of a member, where it is a style.
fn style_entries(m: &ElementMember, env: &StyleEnv) -> (r: Option<Vec<(String, Expr)>>)
    ensures
        match r {
            Some(v) => spliced(env.resolved@, *m) is Some && entries_copied(
                spliced(env.resolved@, *m)->0,
                v@,
            ),
            None => spliced(env.resolved@, *m) is None,
        },
{
    match m {
        ElementMember::Property { key, value, .. } => if same(key.as_str(), "style") {
            env.resolve_expr(value)
        } else {
            None
        },
        _ => None,
    }
}

fn span_of_member(m: &ElementMember) -> (r: crate::ast::Span)
    ensures
        r == member_span(*m),
{
    match m {
        ElementMember::Property { span, .. } => *span,
        ElementMember::Child(c) => c.span,
        ElementMember::Stmt(_) => crate::ast::Span::dummy(),
    }
}

/// Adds the entries as properties at `span`.
fn splice(
    members: Vec<ElementMember>,
    entries: Vec<(String, Expr)>,
    span: crate::ast::Span,
    Ghost(e): Ghost<Seq<(Seq<char>, Expr)>>,
) -> (r: Vec<ElementMember>)
    requires
        entries_copied(e, entries@),
    ensures
        r@.len() == members@.len() + e.len(),
        forall|k: int| 0 <= k < members@.len() ==> r@[k] == #[trigger] members@[k],
        forall|k: int|
            0 <= k < e.len() ==> is_property(#[trigger] e[k], span, r@[members@.len() + k]),
{
    let ghost vs = entries@;
    let ghost before = members@;
    let mut out = members;
    for entry in it: entries
        invariant
            it.seq() == vs,
            entries_copied(e, vs),
            out@.len() == before.len() + it.index(),
            forall|k: int| 0 <= k < before.len() ==> out@[k] == #[trigger] before[k],
            forall|k: int|
                0 <= k < it.index() ==> is_property(#[trigger] e[k], span, out@[before.len() + k]),
    {
        let ghost k0 = it.index() as int;
        let ghost this = entry;
        assert(this == vs[k0]);
        assert(vs[k0].0@ == e[k0].0);
        let (k, v) = entry;
        out.push(ElementMember::Property { key: k, value: v, span });
    }
    out
}

// ---- trees --------------------------------------------------------------------------

pub open spec fn expr_kind_styled(
    resolved: Map<Seq<char>, Vec<(String, Expr)>>,
    a: ExprKind,
    b: ExprKind,
) -> bool
    decreases a,
{
    match a {
        ExprKind::Ident(x) => match b {
            ExprKind::Ident(y) => y@ == x@,
            _ => false,
        },
        ExprKind::Path(x) => match b {
            ExprKind::Path(y) => same_idents(x, y),
            _ => false,
        },
        ExprKind::Call { callee, args, block, type_args } => match b {
            ExprKind::Call { callee: callee2, args: args2, block: block2, type_args: type_args2 } => {
                &&& expr_styled(resolved, *callee, *callee2)
                &&& exprs_styled(resolved, args, args2)
                &&& opt_boxed_expr_styled(resolved, block, block2)
                &&& same_type_exprs(type_args, type_args2)
            },
            _ => false,
        },
        ExprKind::MethodCall { receiver, method, args, block, type_args } => match b {
            ExprKind::MethodCall {
                receiver: receiver2,
                method: method2,
                args: args2,
                block: block2,
                type_args: type_args2,
            } => {
                &&& expr_styled(resolved, *receiver, *receiver2)
                &&& same_ident(method, method2)
                &&& exprs_styled(resolved, args, args2)
                &&& opt_boxed_expr_styled(resolved, block, block2)
                &&& same_type_exprs(type_args, type_args2)
            },
            _ => false,
        },
        ExprKind::Member { receiver, name } => match b {
            ExprKind::Member { receiver: receiver2, name: name2 } => {
                &&& expr_styled(resolved, *receiver, *receiver2)
                &&& same_ident(name, name2)
            },
            _ => false,
        },
        ExprKind::SafeMember { receiver, name } => match b {
            ExprKind::SafeMember { receiver: receiver2, name: name2 } => {
                &&& expr_styled(resolved, *receiver, *receiver2)
                &&& same_ident(name, name2)
            },
            _ => false,
        },
        ExprKind::SafeMethodCall { receiver, method, args, block, type_args } => match b {
            ExprKind::SafeMethodCall {
                receiver: receiver2,
                method: method2,
                args: args2,
                block: block2,
                type_args: type_args2,
            } => {
                &&& expr_styled(resolved, *receiver, *receiver2)
                &&& same_ident(method, method2)
                &&& exprs_styled(resolved, args, args2)
                &&& opt_boxed_expr_styled(resolved, block, block2)
                &&& same_type_exprs(type_args, type_args2)
            },
            _ => false,
        },
        ExprKind::Index { receiver, index } => match b {
            ExprKind::Index { receiver: receiver2, index: index2 } => {
                &&& expr_styled(resolved, *receiver, *receiver2)
                &&& expr_styled(resolved, *index, *index2)
            },
            _ => false,
        },
        ExprKind::Block(x) => match b {
            ExprKind::Block(y) => block_styled(resolved, x, y),
            _ => false,
        },
        ExprKind::Lambda { params, body } => match b {
            ExprKind::Lambda { params: params2, body: body2 } => {
                &&& params_styled(resolved, params, params2)
                &&& block_styled(resolved, body, body2)
            },
            _ => false,
        },
        ExprKind::Unary { op, expr } => match b {
            ExprKind::Unary { op: op2, expr: expr2 } => {
                &&& op2 == op
                &&& expr_styled(resolved, *expr, *expr2)
            },
            _ => false,
        },
        ExprKind::Binary { op, lhs, rhs } => match b {
            ExprKind::Binary { op: op2, lhs: lhs2, rhs: rhs2 } => {
                &&& op2 == op
                &&& expr_styled(resolved, *lhs, *lhs2)
                &&& expr_styled(resolved, *rhs, *rhs2)
            },
            _ => false,
        },
        ExprKind::Try(x) => match b {
            ExprKind::Try(y) => expr_styled(resolved, *x, *y),
            _ => false,
        },
        ExprKind::Await(x) => match b {
            ExprKind::Await(y) => expr_styled(resolved, *x, *y),
            _ => false,
        },
        ExprKind::If { cond, then_b, else_b, let_binding } => match b {
            ExprKind::If { cond: cond2, then_b: then_b2, else_b: else_b2, let_binding: let_binding2 } => {
                &&& expr_styled(resolved, *cond, *cond2)
                &&& block_styled(resolved, then_b, then_b2)
                &&& opt_block_styled(resolved, else_b, else_b2)
                &&& opt_let_binding_styled(resolved, let_binding, let_binding2)
            },
            _ => false,
        },
        ExprKind::Case { scrutinee, arms } => match b {
            ExprKind::Case { scrutinee: scrutinee2, arms: arms2 } => {
                &&& expr_styled(resolved, *scrutinee, *scrutinee2)
                &&& case_arms_styled(resolved, arms, arms2)
            },
            _ => false,
        },
        ExprKind::Kwarg { key, value } => match b {
            ExprKind::Kwarg { key: key2, value: value2 } => {
                &&& same_ident(key, key2)
                &&& expr_styled(resolved, *value, *value2)
            },
            _ => false,
        },
        ExprKind::Element(x) => match b {
            ExprKind::Element(y) => element_styled(resolved, x, y),
            _ => false,
        },
        ExprKind::Array(x) => match b {
            ExprKind::Array(y) => exprs_styled(resolved, x, y),
            _ => false,
        },
        ExprKind::MapLit(x) => match b {
            ExprKind::MapLit(y) => map_entries_styled(resolved, x, y),
            _ => false,
        },
        ExprKind::Range { start, end, inclusive } => match b {
            ExprKind::Range { start: start2, end: end2, inclusive: inclusive2 } => {
                &&& expr_styled(resolved, *start, *start2)
                &&& expr_styled(resolved, *end, *end2)
                &&& inclusive2 == inclusive
            },
            _ => false,
        },
        ExprKind::Str(x) => match b {
            ExprKind::Str(y) => str_parts_styled(resolved, x, y),
            _ => false,
        },
        ExprKind::Int(_) => b == a,
        ExprKind::Float(x) => match b {
            ExprKind::Float(y) => y@ == x@,
            _ => false,
        },
        ExprKind::Bool(_) => b == a,
        ExprKind::Nil => b is Nil,
        ExprKind::Sym(x) => match b {
            ExprKind::Sym(y) => y@ == x@,
            _ => false,
        },
        ExprKind::AtIdent(x) => match b {
            ExprKind::AtIdent(y) => y@ == x@,
            _ => false,
        },
        ExprKind::SelfRef => b is SelfRef,
    }
}

pub fn desugar_expr_kind(a: &ExprKind, env: &StyleEnv) -> (r: ExprKind)
    ensures
        expr_kind_styled(env.resolved@, *a, r),
    decreases *a,
{
    match a {
        ExprKind::Ident(x) => ExprKind::Ident(x.clone()),
        ExprKind::Path(x) => ExprKind::Path(copy_idents(x)),
        ExprKind::Call { callee, args, block, type_args } => ExprKind::Call {
            callee: Box::new(desugar_expr(callee, env)),
            args: desugar_exprs(args, env),
            block: desugar_opt_boxed_expr(block, env),
            type_args: copy_type_exprs(type_args),
        },
        ExprKind::MethodCall { receiver, method, args, block, type_args } => ExprKind::MethodCall {
            receiver: Box::new(desugar_expr(receiver, env)),
            method: copy_ident(method),
            args: desugar_exprs(args, env),
            block: desugar_opt_boxed_expr(block, env),
            type_args: copy_type_exprs(type_args),
        },
        ExprKind::Member { receiver, name } => ExprKind::Member {
            receiver: Box::new(desugar_expr(receiver, env)),
            name: copy_ident(name),
        },
        ExprKind::SafeMember { receiver, name } => ExprKind::SafeMember {
            receiver: Box::new(desugar_expr(receiver, env)),
            name: copy_ident(name),
        },
        ExprKind::SafeMethodCall { receiver, method, args, block, type_args } => ExprKind::SafeMethodCall {
            receiver: Box::new(desugar_expr(receiver, env)),
            method: copy_ident(method),
            args: desugar_exprs(args, env),
            block: desugar_opt_boxed_expr(block, env),
            type_args: copy_type_exprs(type_args),
        },
        ExprKind::Index { receiver, index } => ExprKind::Index {
            receiver: Box::new(desugar_expr(receiver, env)),
            index: Box::new(desugar_expr(index, env)),
        },
        ExprKind::Block(x) => ExprKind::Block(desugar_block(x, env)),
        ExprKind::Lambda { params, body } => ExprKind::Lambda {
            params: desugar_params(params, env),
            body: desugar_block(body, env),
        },
        ExprKind::Unary { op, expr } => ExprKind::Unary {
            op: *op,
            expr: Box::new(desugar_expr(expr, env)),
        },
        ExprKind::Binary { op, lhs, rhs } => ExprKind::Binary {
            op: *op,
            lhs: Box::new(desugar_expr(lhs, env)),
            rhs: Box::new(desugar_expr(rhs, env)),
        },
        ExprKind::Try(x) => ExprKind::Try(Box::new(desugar_expr(x, env))),
        ExprKind::Await(x) => ExprKind::Await(Box::new(desugar_expr(x, env))),
        ExprKind::If { cond, then_b, else_b, let_binding } => ExprKind::If {
            cond: Box::new(desugar_expr(cond, env)),
            then_b: desugar_block(then_b, env),
            else_b: desugar_opt_block(else_b, env),
            let_binding: desugar_opt_let_binding(let_binding, env),
        },
        ExprKind::Case { scrutinee, arms } => ExprKind::Case {
            scrutinee: Box::new(desugar_expr(scrutinee, env)),
            arms: desugar_case_arms(arms, env),
        },
        ExprKind::Kwarg { key, value } => ExprKind::Kwarg {
            key: copy_ident(key),
            value: Box::new(desugar_expr(value, env)),
        },
        ExprKind::Element(x) => ExprKind::Element(desugar_element(x, env)),
        ExprKind::Array(x) => ExprKind::Array(desugar_exprs(x, env)),
        ExprKind::MapLit(x) => ExprKind::MapLit(desugar_map_entries(x, env)),
        ExprKind::Range { start, end, inclusive } => ExprKind::Range {
            start: Box::new(desugar_expr(start, env)),
            end: Box::new(desugar_expr(end, env)),
            inclusive: *inclusive,
        },
        ExprKind::Str(x) => ExprKind::Str(desugar_str_parts(x, env)),
        ExprKind::Int(x) => ExprKind::Int(*x),
        ExprKind::Float(x) => ExprKind::Float(x.clone()),
        ExprKind::Bool(x) => ExprKind::Bool(*x),
        ExprKind::Nil => ExprKind::Nil,
        ExprKind::Sym(x) => ExprKind::Sym(x.clone()),
        ExprKind::AtIdent(x) => ExprKind::AtIdent(x.clone()),
        ExprKind::SelfRef => ExprKind::SelfRef,
    }
}

/// A member that is not replaced: a `style:` that does not resolve is kept, and
/// inside any other member the styles are replaced.
pub open spec fn element_member_styled(
    resolved: Map<Seq<char>, Vec<(String, Expr)>>,
    a: ElementMember,
    b: ElementMember,
) -> bool
    decreases a, 0int,
{
    match a {
        ElementMember::Property { key, value, span } => if key@ == "style"@ {
            same_element_member(a, b)
        } else {
            match b {
                ElementMember::Property { key: key2, value: value2, span: span2 } => {
                    &&& key2@ == key@
                    &&& expr_styled(resolved, value, value2)
                    &&& span2 == span
                },
                _ => false,
            }
        },
        ElementMember::Child(c) => match b {
            ElementMember::Child(c2) => element_styled(resolved, c, c2),
            _ => false,
        },
        ElementMember::Stmt(s) => match b {
            ElementMember::Stmt(s2) => stmt_styled(resolved, s, s2),
            _ => false,
        },
    }
}

pub fn desugar_element_member(a: &ElementMember, env: &StyleEnv) -> (r: ElementMember)
    ensures
        element_member_styled(env.resolved@, *a, r),
    decreases *a,
{
    match a {
        ElementMember::Property { key, value, span } => if same(key.as_str(), "style") {
            copy_element_member(a)
        } else {
            ElementMember::Property {
                key: key.clone(),
                value: desugar_expr(value, env),
                span: *span,
            }
        },
        ElementMember::Child(c) => ElementMember::Child(desugar_element(c, env)),
        ElementMember::Stmt(s) => ElementMember::Stmt(desugar_stmt(s, env)),
    }
}

pub open spec fn stmt_styled(
    resolved: Map<Seq<char>, Vec<(String, Expr)>>,
    a: Stmt,
    b: Stmt,
) -> bool
    decreases a,
{
    match a {
        Stmt::Let { name, ty, value, span, block_id } => match b {
            Stmt::Let { name: name2, ty: ty2, value: value2, span: span2, block_id: block_id2 } => {
                &&& same_ident(name, name2)
                &&& same_opt_type_expr(ty, ty2)
                &&& expr_styled(resolved, value, value2)
                &&& span2 == span
                &&& block_id2 == block_id
            },
            _ => false,
        },
        Stmt::Var { name, ty, value, span, block_id } => match b {
            Stmt::Var { name: name2, ty: ty2, value: value2, span: span2, block_id: block_id2 } => {
                &&& same_ident(name, name2)
                &&& same_opt_type_expr(ty, ty2)
                &&& expr_styled(resolved, value, value2)
                &&& span2 == span
                &&& block_id2 == block_id
            },
            _ => false,
        },
        Stmt::Expr(x) => match b {
            Stmt::Expr(y) => expr_styled(resolved, x, y),
            _ => false,
        },
        Stmt::Return { value, span } => match b {
            Stmt::Return { value: value2, span: span2 } => {
                &&& opt_expr_styled(resolved, value, value2)
                &&& span2 == span
            },
            _ => false,
        },
        Stmt::Emit { signal, args, span } => match b {
            Stmt::Emit { signal: signal2, args: args2, span: span2 } => {
                &&& same_ident(signal, signal2)
                &&& exprs_styled(resolved, args, args2)
                &&& span2 == span
            },
            _ => false,
        },
        Stmt::Assign { target, op, value, span } => match b {
            Stmt::Assign { target: target2, op: op2, value: value2, span: span2 } => {
                &&& expr_styled(resolved, target, target2)
                &&& op2 == op
                &&& expr_styled(resolved, value, value2)
                &&& span2 == span
            },
            _ => false,
        },
        Stmt::For { binding, iter, body, span } => match b {
            Stmt::For { binding: binding2, iter: iter2, body: body2, span: span2 } => {
                &&& same_ident(binding, binding2)
                &&& expr_styled(resolved, iter, iter2)
                &&& block_styled(resolved, body, body2)
                &&& span2 == span
            },
            _ => false,
        },
        Stmt::While { cond, body, span } => match b {
            Stmt::While { cond: cond2, body: body2, span: span2 } => {
                &&& expr_styled(resolved, cond, cond2)
                &&& block_styled(resolved, body, body2)
                &&& span2 == span
            },
            _ => false,
        },
        Stmt::Break { .. } => b == a,
        Stmt::Continue { .. } => b == a,
        Stmt::Batch { body, span } => match b {
            Stmt::Batch { body: body2, span: span2 } => {
                &&& block_styled(resolved, body, body2)
                &&& span2 == span
            },
            _ => false,
        },
    }
}

pub fn desugar_stmt(a: &Stmt, env: &StyleEnv) -> (r: Stmt)
    ensures
        stmt_styled(env.resolved@, *a, r),
    decreases *a,
{
    match a {
        Stmt::Let { name, ty, value, span, block_id } => Stmt::Let {
            name: copy_ident(name),
            ty: copy_opt_type_expr(ty),
            value: desugar_expr(value, env),
            span: *span,
            block_id: *block_id,
        },
        Stmt::Var { name, ty, value, span, block_id } => Stmt::Var {
            name: copy_ident(name),
            ty: copy_opt_type_expr(ty),
            value: desugar_expr(value, env),
            span: *span,
            block_id: *block_id,
        },
        Stmt::Expr(x) => Stmt::Expr(desugar_expr(x, env)),
        Stmt::Return { value, span } => Stmt::Return {
            value: desugar_opt_expr(value, env),
            span: *span,
        },
        Stmt::Emit { signal, args, span } => Stmt::Emit {
            signal: copy_ident(signal),
            args: desugar_exprs(args, env),
            span: *span,
        },
        Stmt::Assign { target, op, value, span } => Stmt::Assign {
            target: desugar_expr(target, env),
            op: *op,
            value: desugar_expr(value, env),
            span: *span,
        },
        Stmt::For { binding, iter, body, span } => Stmt::For {
            binding: copy_ident(binding),
            iter: desugar_expr(iter, env),
            body: desugar_block(body, env),
            span: *span,
        },
        Stmt::While { cond, body, span } => Stmt::While {
            cond: desugar_expr(cond, env),
            body: desugar_block(body, env),
            span: *span,
        },
        Stmt::Break { span } => Stmt::Break {
            span: *span,
        },
        Stmt::Continue { span } => Stmt::Continue {
            span: *span,
        },
        Stmt::Batch { body, span } => Stmt::Batch {
            body: desugar_block(body, env),
            span: *span,
        },
    }
}

/// `b` is `a` with every style in the tree replaced.
pub open spec fn element_styled(
    resolved: Map<Seq<char>, Vec<(String, Expr)>>,
    a: Element,
    b: Element,
) -> bool
    decreases a,
{
    &&& same_idents(a.path, b.path)
    &&& same_ident(a.name, b.name)
    &&& element_members_styled(resolved, a.members, b.members)
    &&& b.span == a.span
}

/// The element with every resolvable style in its tree replaced by its
/// properties.
pub fn desugar_element(a: &Element, env: &StyleEnv) -> (r: Element)
    ensures
        element_styled(env.resolved@, *a, r),
    decreases *a,
{
    Element {
        path: copy_idents(&a.path),
        name: copy_ident(&a.name),
        members: desugar_element_members(&a.members, env),
        span: a.span,
    }
}

pub open spec fn expr_styled(
    resolved: Map<Seq<char>, Vec<(String, Expr)>>,
    a: Expr,
    b: Expr,
) -> bool
    decreases a,
{
    &&& expr_kind_styled(resolved, a.kind, b.kind)
    &&& b.span == a.span
}

pub fn desugar_expr(a: &Expr, env: &StyleEnv) -> (r: Expr)
    ensures
        expr_styled(env.resolved@, *a, r),
    decreases *a,
{
    Expr {
        kind: desugar_expr_kind(&a.kind, env),
        span: a.span,
    }
}

pub open spec fn exprs_styled(
    resolved: Map<Seq<char>, Vec<(String, Expr)>>,
    a: Vec<Expr>,
    b: Vec<Expr>,
) -> bool
    decreases a,
{
    &&& a@.len() == b@.len()
    &&& forall|i: int| 0 <= i < a@.len() ==> expr_styled(resolved, #[trigger] a[i], b[i])
}

pub fn desugar_exprs(a: &Vec<Expr>, env: &StyleEnv) -> (r: Vec<Expr>)
    ensures
        exprs_styled(env.resolved@, *a, r),
    decreases *a,
{
    let mut out: Vec<Expr> = Vec::new();
    let mut i: usize = 0;
    while i < a.len()
        invariant
            i <= a@.len(),
            out@.len() == i,
            forall|j: int| 0 <= j < i ==> expr_styled(env.resolved@, #[trigger] a[j], out[j]),
        decreases a@.len() - i,
    {
        assert(decreases_to!(*a => a[i as int]));
        let x = desugar_expr(&a[i], env);
        out.push(x);
        i += 1;
    }
    out
}

pub open spec fn opt_boxed_expr_styled(
    resolved: Map<Seq<char>, Vec<(String, Expr)>>,
    a: Option<Box<Expr>>,
    b: Option<Box<Expr>>,
) -> bool
    decreases a,
{
    match a {
        Some(x) => b is Some && expr_styled(resolved, *x, *b->0),
        None => b is None,
    }
}

pub fn desugar_opt_boxed_expr(a: &Option<Box<Expr>>, env: &StyleEnv) -> (r: Option<Box<Expr>>)
    ensures
        opt_boxed_expr_styled(env.resolved@, *a, r),
    decreases *a,
{
    match a {
        Some(x) => Some(Box::new(desugar_expr(x, env))),
        None => None,
    }
}

pub open spec fn block_styled(
    resolved: Map<Seq<char>, Vec<(String, Expr)>>,
    a: Block,
    b: Block,
) -> bool
    decreases a,
{
    &&& stmts_styled(resolved, a.stmts, b.stmts)
    &&& opt_boxed_expr_styled(resolved, a.trailing, b.trailing)
    &&& b.span == a.span
}

pub fn desugar_block(a: &Block, env: &StyleEnv) -> (r: Block)
    ensures
        block_styled(env.resolved@, *a, r),
    decreases *a,
{
    Block {
        stmts: desugar_stmts(&a.stmts, env),
        trailing: desugar_opt_boxed_expr(&a.trailing, env),
        span: a.span,
    }
}

pub open spec fn params_styled(
    resolved: Map<Seq<char>, Vec<(String, Expr)>>,
    a: Vec<Param>,
    b: Vec<Param>,
) -> bool
    decreases a,
{
    &&& a@.len() == b@.len()
    &&& forall|i: int| 0 <= i < a@.len() ==> param_styled(resolved, #[trigger] a[i], b[i])
}

pub fn desugar_params(a: &Vec<Param>, env: &StyleEnv) -> (r: Vec<Param>)
    ensures
        params_styled(env.resolved@, *a, r),
    decreases *a,
{
    let mut out: Vec<Param> = Vec::new();
    let mut i: usize = 0;
    while i < a.len()
        invariant
            i <= a@.len(),
            out@.len() == i,
            forall|j: int| 0 <= j < i ==> param_styled(env.resolved@, #[trigger] a[j], out[j]),
        decreases a@.len() - i,
    {
        assert(decreases_to!(*a => a[i as int]));
        let x = desugar_param(&a[i], env);
        out.push(x);
        i += 1;
    }
    out
}

pub open spec fn opt_block_styled(
    resolved: Map<Seq<char>, Vec<(String, Expr)>>,
    a: Option<Block>,
    b: Option<Block>,
) -> bool
    decreases a,
{
    match a {
        Some(x) => b is Some && block_styled(resolved, x, b->0),
        None => b is None,
    }
}

pub fn desugar_opt_block(a: &Option<Block>, env: &StyleEnv) -> (r: Option<Block>)
    ensures
        opt_block_styled(env.resolved@, *a, r),
    decreases *a,
{
    match a {
        Some(x) => Some(desugar_block(x, env)),
        None => None,
    }
}

pub open spec fn opt_let_binding_styled(
    resolved: Map<Seq<char>, Vec<(String, Expr)>>,
    a: Option<LetBinding>,
    b: Option<LetBinding>,
) -> bool
    decreases a,
{
    match a {
        Some(x) => b is Some && let_binding_styled(resolved, x, b->0),
        None => b is None,
    }
}

pub fn desugar_opt_let_binding(a: &Option<LetBinding>, env: &StyleEnv) -> (r: Option<LetBinding>)
    ensures
        opt_let_binding_styled(env.resolved@, *a, r),
    decreases *a,
{
    match a {
        Some(x) => Some(desugar_let_binding(x, env)),
        None => None,
    }
}

pub open spec fn case_arms_styled(
    resolved: Map<Seq<char>, Vec<(String, Expr)>>,
    a: Vec<CaseArm>,
    b: Vec<CaseArm>,
) -> bool
    decreases a,
{
    &&& a@.len() == b@.len()
    &&& forall|i: int| 0 <= i < a@.len() ==> case_arm_styled(resolved, #[trigger] a[i], b[i])
}

pub fn desugar_case_arms(a: &Vec<CaseArm>, env: &StyleEnv) -> (r: Vec<CaseArm>)
    ensures
        case_arms_styled(env.resolved@, *a, r),
    decreases *a,
{
    let mut out: Vec<CaseArm> = Vec::new();
    let mut i: usize = 0;
    while i < a.len()
        invariant
            i <= a@.len(),
            out@.len() == i,
            forall|j: int| 0 <= j < i ==> case_arm_styled(env.resolved@, #[trigger] a[j], out[j]),
        decreases a@.len() - i,
    {
        assert(decreases_to!(*a => a[i as int]));
        let x = desugar_case_arm(&a[i], env);
        out.push(x);
        i += 1;
    }
    out
}

pub open spec fn map_entries_styled(
    resolved: Map<Seq<char>, Vec<(String, Expr)>>,
    a: Vec<MapEntry>,
    b: Vec<MapEntry>,
) -> bool
    decreases a,
{
    &&& a@.len() == b@.len()
    &&& forall|i: int| 0 <= i < a@.len() ==> map_entry_styled(resolved, #[trigger] a[i], b[i])
}

pub fn desugar_map_entries(a: &Vec<MapEntry>, env: &StyleEnv) -> (r: Vec<MapEntry>)
    ensures
        map_entries_styled(env.resolved@, *a, r),
    decreases *a,
{
    let mut out: Vec<MapEntry> = Vec::new();
    let mut i: usize = 0;
    while i < a.len()
        invariant
            i <= a@.len(),
            out@.len() == i,
            forall|j: int| 0 <= j < i ==> map_entry_styled(env.resolved@, #[trigger] a[j], out[j]),
        decreases a@.len() - i,
    {
        assert(decreases_to!(*a => a[i as int]));
        let x = desugar_map_entry(&a[i], env);
        out.push(x);
        i += 1;
    }
    out
}

pub open spec fn str_parts_styled(
    resolved: Map<Seq<char>, Vec<(String, Expr)>>,
    a: Vec<StrPart>,
    b: Vec<StrPart>,
) -> bool
    decreases a,
{
    &&& a@.len() == b@.len()
    &&& forall|i: int| 0 <= i < a@.len() ==> str_part_styled(resolved, #[trigger] a[i], b[i])
}

pub fn desugar_str_parts(a: &Vec<StrPart>, env: &StyleEnv) -> (r: Vec<StrPart>)
    ensures
        str_parts_styled(env.resolved@, *a, r),
    decreases *a,
{
    let mut out: Vec<StrPart> = Vec::new();
    let mut i: usize = 0;
    while i < a.len()
        invariant
            i <= a@.len(),
            out@.len() == i,
            forall|j: int| 0 <= j < i ==> str_part_styled(env.resolved@, #[trigger] a[j], out[j]),
        decreases a@.len() - i,
    {
        assert(decreases_to!(*a => a[i as int]));
        let x = desugar_str_part(&a[i], env);
        out.push(x);
        i += 1;
    }
    out
}

pub open spec fn opt_expr_styled(
    resolved: Map<Seq<char>, Vec<(String, Expr)>>,
    a: Option<Expr>,
    b: Option<Expr>,
) -> bool
    decreases a,
{
    match a {
        Some(x) => b is Some && expr_styled(resolved, x, b->0),
        None => b is None,
    }
}

pub fn desugar_opt_expr(a: &Option<Expr>, env: &StyleEnv) -> (r: Option<Expr>)
    ensures
        opt_expr_styled(env.resolved@, *a, r),
    decreases *a,
{
    match a {
        Some(x) => Some(desugar_expr(x, env)),
        None => None,
    }
}

/// `b` is `a` with every member styled, in order.
pub open spec fn element_members_styled(
    resolved: Map<Seq<char>, Vec<(String, Expr)>>,
    a: Vec<ElementMember>,
    b: Vec<ElementMember>,
) -> bool
    decreases a,
{
    &&& b@.len() == styled_count(resolved, a@, a@.len() as int)
    &&& forall|i: int|
        0 <= i < a@.len() ==> member_styled(
            resolved,
            #[trigger] a[i],
            b@,
            styled_count(resolved, a@, i),
        )
}

pub fn desugar_element_members(a: &Vec<ElementMember>, env: &StyleEnv) -> (r: Vec<ElementMember>)
    ensures
        element_members_styled(env.resolved@, *a, r),
    decreases *a,
{
    let ghost table = env.resolved@;
    let mut out: Vec<ElementMember> = Vec::new();
    let mut i: usize = 0;
    while i < a.len()
        invariant
            i <= a@.len(),
            table == env.resolved@,
            out@.len() == styled_count(table, a@, i as int),
            forall|j: int|
                0 <= j < i ==> member_styled(
                    table,
                    #[trigger] a[j],
                    out@,
                    styled_count(table, a@, j),
                ),
        decreases a@.len() - i,
    {
        let ghost before = out@;
        assert(decreases_to!(*a => a[i as int]));
        match style_entries(&a[i], env) {
            Some(entries) => {
                let span = span_of_member(&a[i]);
                out = splice(out, entries, span, Ghost(spliced(table, a[i as int])->0));
            },
            None => {
                let m = desugar_element_member(&a[i], env);
                out.push(m);
            },
        }
        proof {
            assert forall|j: int| 0 <= j < i + 1 implies member_styled(
                table,
                #[trigger] a[j],
                out@,
                styled_count(table, a@, j),
            ) by {
                if j < i {
                    lemma_styled_count(table, a@, j, i as int);
                    lemma_member_stable(table, a[j], before, out@, styled_count(table, a@, j));
                }
            }
        }
        i += 1;
    }
    out
}

pub open spec fn stmts_styled(
    resolved: Map<Seq<char>, Vec<(String, Expr)>>,
    a: Vec<Stmt>,
    b: Vec<Stmt>,
) -> bool
    decreases a,
{
    &&& a@.len() == b@.len()
    &&& forall|i: int| 0 <= i < a@.len() ==> stmt_styled(resolved, #[trigger] a[i], b[i])
}

pub fn desugar_stmts(a: &Vec<Stmt>, env: &StyleEnv) -> (r: Vec<Stmt>)
    ensures
        stmts_styled(env.resolved@, *a, r),
    decreases *a,
{
    let mut out: Vec<Stmt> = Vec::new();
    let mut i: usize = 0;
    while i < a.len()
        invariant
            i <= a@.len(),
            out@.len() == i,
            forall|j: int| 0 <= j < i ==> stmt_styled(env.resolved@, #[trigger] a[j], out[j]),
        decreases a@.len() - i,
    {
        assert(decreases_to!(*a => a[i as int]));
        let x = desugar_stmt(&a[i], env);
        out.push(x);
        i += 1;
    }
    out
}

pub open spec fn param_styled(
    resolved: Map<Seq<char>, Vec<(String, Expr)>>,
    a: Param,
    b: Param,
) -> bool
    decreases a,
{
    &&& same_ident(a.name, b.name)
    &&& same_type_expr(a.ty, b.ty)
    &&& opt_expr_styled(resolved, a.default, b.default)
    &&& b.is_escaping == a.is_escaping
    &&& b.is_consuming == a.is_consuming
    &&& b.span == a.span
}

pub fn desugar_param(a: &Param, env: &StyleEnv) -> (r: Param)
    ensures
        param_styled(env.resolved@, *a, r),
    decreases *a,
{
    Param {
        name: copy_ident(&a.name),
        ty: copy_type_expr(&a.ty),
        default: desugar_opt_expr(&a.default, env),
        is_escaping: a.is_escaping,
        is_consuming: a.is_consuming,
        span: a.span,
    }
}

pub open spec fn let_binding_styled(
    resolved: Map<Seq<char>, Vec<(String, Expr)>>,
    a: LetBinding,
    b: LetBinding,
) -> bool
    decreases a,
{
    &&& same_pattern(a.pattern, b.pattern)
    &&& expr_styled(resolved, *a.value, *b.value)
}

pub fn desugar_let_binding(a: &LetBinding, env: &StyleEnv) -> (r: LetBinding)
    ensures
        let_binding_styled(env.resolved@, *a, r),
    decreases *a,
{
    LetBinding {
        pattern: copy_pattern(&a.pattern),
        value: Box::new(desugar_expr(&a.value, env)),
    }
}

pub open spec fn case_arm_styled(
    resolved: Map<Seq<char>, Vec<(String, Expr)>>,
    a: CaseArm,
    b: CaseArm,
) -> bool
    decreases a,
{
    &&& same_pattern(a.pattern, b.pattern)
    &&& block_styled(resolved, a.body, b.body)
    &&& b.span == a.span
}

pub fn desugar_case_arm(a: &CaseArm, env: &StyleEnv) -> (r: CaseArm)
    ensures
        case_arm_styled(env.resolved@, *a, r),
    decreases *a,
{
    CaseArm {
        pattern: copy_pattern(&a.pattern),
        body: desugar_block(&a.body, env),
        span: a.span,
    }
}

pub open spec fn map_entry_styled(
    resolved: Map<Seq<char>, Vec<(String, Expr)>>,
    a: MapEntry,
    b: MapEntry,
) -> bool
    decreases a,
{
    &&& expr_styled(resolved, a.key, b.key)
    &&& expr_styled(resolved, a.value, b.value)
}

pub fn desugar_map_entry(a: &MapEntry, env: &StyleEnv) -> (r: MapEntry)
    ensures
        map_entry_styled(env.resolved@, *a, r),
    decreases *a,
{
    MapEntry {
        key: desugar_expr(&a.key, env),
        value: desugar_expr(&a.value, env),
    }
}

pub open spec fn str_part_styled(
    resolved: Map<Seq<char>, Vec<(String, Expr)>>,
    a: StrPart,
    b: StrPart,
) -> bool
    decreases a,
{
    match a {
        StrPart::Text(x) => match b {
            StrPart::Text(y) => y@ == x@,
            _ => false,
        },
        StrPart::Interp(x) => match b {
            StrPart::Interp(y) => expr_styled(resolved, *x, *y),
            _ => false,
        },
        StrPart::InterpFmt { expr, format_spec } => match b {
            StrPart::InterpFmt { expr: expr2, format_spec: format_spec2 } => {
                &&& expr_styled(resolved, *expr, *expr2)
                &&& format_spec2@ == format_spec@
            },
            _ => false,
        },
    }
}

pub fn desugar_str_part(a: &StrPart, env: &StyleEnv) -> (r: StrPart)
    ensures
        str_part_styled(env.resolved@, *a, r),
    decreases *a,
{
    match a {
        StrPart::Text(x) => StrPart::Text(x.clone()),
        StrPart::Interp(x) => StrPart::Interp(Box::new(desugar_expr(x, env))),
        StrPart::InterpFmt { expr, format_spec } => StrPart::InterpFmt {
            expr: Box::new(desugar_expr(expr, env)),
            format_spec: format_spec.clone(),
        },
    }
}

// ---- modules ----------------------------------------------------------------------

/// The root element of a view or widget is styled; everything else is copied.
pub open spec fn item_styled(
    resolved: Map<Seq<char>, Vec<(String, Expr)>>,
    a: Item,
    b: Item,
) -> bool {
    match a {
        Item::View(v) => match b {
            Item::View(w) => {
                &&& same_ident(v.name, w.name)
                &&& same_params(v.params, w.params)
                &&& same_state_fields(v.state_fields, w.state_fields)
                &&& element_styled(resolved, v.root, w.root)
                &&& w.is_pub == v.is_pub
                &&& w.span == v.span
            },
            _ => false,
        },
        Item::Widget(v) => match b {
            Item::Widget(w) => {
                &&& same_ident(v.name, w.name)
                &&& same_params(v.params, w.params)
                &&& same_state_fields(v.state_fields, w.state_fields)
                &&& element_styled(resolved, v.root, w.root)
                &&& w.is_pub == v.is_pub
                &&& w.span == v.span
            },
            _ => false,
        },
        _ => same_item(a, b),
    }
}

/// `b` is the module `a` with its elements styled by `env`.
pub open spec fn module_styled(env: StyleEnv, a: Module, b: Module) -> bool {
    &&& b.span == a.span
    &&& b.items@.len() == a.items@.len()
    &&& forall|i: int|
        0 <= i < a.items@.len() ==> item_styled(env.resolved@, #[trigger] a.items@[i], b.items@[i])
}

/// Replaces every `style:` of the module's elements by the properties that it
/// stands for. Fails where a declared style cannot be resolved.
pub fn desugar_module(module: &Module) -> (r: Result<Module, EmitError>)
    ensures
        match r {
            Ok(m) => exists|env: StyleEnv| #[trigger]
                env_of(env, module.items@) && module_styled(env, *module, m),
            Err(e) => exists|i: int|
                0 <= i < module.items@.len() && #[trigger] fails_at(module.items@, i) == Some(
                    fault_of(e),
                ) && forall|k: int| 0 <= k < i ==> (#[trigger] fails_at(module.items@, k)) is None,
        },
{
    let env = match StyleEnv::build(module) {
        Ok(env) => env,
        Err(e) => {
            return Err(e);
        },
    };
    let mut items: Vec<Item> = Vec::new();
    let mut i: usize = 0;
    while i < module.items.len()
        invariant
            i <= module.items@.len(),
            items@.len() == i,
            forall|j: int|
                0 <= j < i ==> item_styled(
                    env.resolved@,
                    #[trigger] module.items@[j],
                    items@[j],
                ),
        decreases module.items@.len() - i,
    {
        let item = match &module.items[i] {
            Item::View(v) => Item::View(
                ViewDecl {
                    name: copy_ident(&v.name),
                    params: copy_params(&v.params),
                    state_fields: copy_state_fields(&v.state_fields),
                    root: desugar_element(&v.root, &env),
                    is_pub: v.is_pub,
                    span: v.span,
                },
            ),
            Item::Widget(w) => Item::Widget(
                WidgetDecl {
                    name: copy_ident(&w.name),
                    params: copy_params(&w.params),
                    state_fields: copy_state_fields(&w.state_fields),
                    root: desugar_element(&w.root, &env),
                    is_pub: w.is_pub,
                    span: w.span,
                },
            ),
            other => copy_item(other),
        };
        items.push(item);
        i += 1;
    }
    let out = Module { items, span: module.span };
    assert(env_of(env, module.items@) && module_styled(env, *module, out));
    Ok(out)
}

// ---- laws ---------------------------------------------------------------------------

proof fn lemma_not_overridden(l: Seq<(Seq<char>, Expr)>, r: Seq<(Seq<char>, Expr)>)
    ensures
        forall|i: int|
            0 <= i < not_overridden(l, r).len() ==> !has_key(r, (#[trigger] not_overridden(l, r)[i]).0),
        forall|i: int|
            0 <= i < l.len() && !has_key(r, (#[trigger] l[i]).0) ==> not_overridden(l, r).contains(l[i]),
    decreases l.len(),
{
    if l.len() > 0 {
        let d = l.drop_last();
        let w = not_overridden(d, r);
        lemma_not_overridden(d, r);
        assert forall|i: int| 0 <= i < not_overridden(l, r).len() implies !has_key(
            r,
            (#[trigger] not_overridden(l, r)[i]).0,
        ) by {
            if i < w.len() {
                assert(not_overridden(l, r)[i] == w[i]);
            }
        }
        assert forall|i: int| 0 <= i < l.len() && !has_key(r, (#[trigger] l[i]).0) implies not_overridden(
            l,
            r,
        ).contains(l[i]) by {
            if i < d.len() {
                assert(d[i] == l[i]);
                assert(w.contains(l[i]));
                let k = choose|k: int| 0 <= k < w.len() && w[k] == l[i];
                assert(not_overridden(l, r)[k] == l[i]);
            } else {
                assert(not_overridden(l, r)[w.len() as int] == l[i]);
            }
        }
    }
}

/// In a sum, every entry of the right style stays, an entry of the left style
/// stays where the right one has not its key, and an entry under a key of the
/// right style is one of the right style.
pub proof fn law_right_wins(l: Seq<(Seq<char>, Expr)>, r: Seq<(Seq<char>, Expr)>)
    ensures
        forall|i: int| 0 <= i < r.len() ==> merged(l, r).contains(#[trigger] r[i]),
        forall|i: int|
            0 <= i < l.len() && !has_key(r, (#[trigger] l[i]).0) ==> merged(l, r).contains(l[i]),
        forall|i: int|
            0 <= i < merged(l, r).len() && has_key(r, (#[trigger] merged(l, r)[i]).0) ==> r.contains(
                merged(l, r)[i],
            ),
{
    lemma_not_overridden(l, r);
    let w = not_overridden(l, r);
    assert forall|i: int| 0 <= i < r.len() implies merged(l, r).contains(#[trigger] r[i]) by {
        assert(merged(l, r)[w.len() + i] == r[i]);
    }
    assert forall|i: int| 0 <= i < l.len() && !has_key(r, (#[trigger] l[i]).0) implies merged(
        l,
        r,
    ).contains(l[i]) by {
        let k = choose|k: int| 0 <= k < w.len() && w[k] == l[i];
        assert(merged(l, r)[k] == l[i]);
    }
    assert forall|i: int|
        0 <= i < merged(l, r).len() && has_key(r, (#[trigger] merged(l, r)[i]).0) implies r.contains(
        merged(l, r)[i],
    ) by {
        if i < w.len() {
            assert(merged(l, r)[i] == w[i]);
        } else {
            assert(merged(l, r)[i] == r[i - w.len()]);
        }
    }
}

/// A style defined as itself cannot be resolved.
pub proof fn law_self_alias_is_a_cycle(items: Seq<Item>, d: StyleDecl)
    requires
        style_decl(items, d.name.name@, items.len() as int) == Some(d),
        match d.body {
            StyleBody::Alias(e) => match e.kind {
                ExprKind::Ident(n) => n@ == d.name.name@,
                _ => false,
            },
            _ => false,
        },
    ensures
        style_of(items, d.name.name@) == Err::<Seq<(Seq<char>, Expr)>, Fault>(
            Fault::Cycle(d.name.name@),
        ),
{
    let name = d.name.name@;
    let path = Seq::<Seq<char>>::empty().push(name);
    assert(path[0] == name);
    assert(path.contains(name));
    if let StyleBody::Alias(e) = d.body {
        assert(style_sum(items, e, path) == named_style(items, name, path));
    }
}

/// Two styles that are defined as each other cannot be resolved.
pub proof fn law_mutual_aliases_are_a_cycle(items: Seq<Item>, a: StyleDecl, b: StyleDecl)
    requires
        a.name.name@ != b.name.name@,
        style_decl(items, a.name.name@, items.len() as int) == Some(a),
        style_decl(items, b.name.name@, items.len() as int) == Some(b),
        match a.body {
            StyleBody::Alias(e) => match e.kind {
                ExprKind::Ident(n) => n@ == b.name.name@,
                _ => false,
            },
            _ => false,
        },
        match b.body {
            StyleBody::Alias(e) => match e.kind {
                ExprKind::Ident(n) => n@ == a.name.name@,
                _ => false,
            },
            _ => false,
        },
    ensures
        style_of(items, a.name.name@) == Err::<Seq<(Seq<char>, Expr)>, Fault>(
            Fault::Cycle(a.name.name@),
        ),
{
    let first = a.name.name@;
    let second = b.name.name@;
    let one = Seq::<Seq<char>>::empty().push(first);
    let two = one.push(second);
    assert(one[0] == first);
    assert(!one.contains(second));
    assert(two[0] == first);
    assert(two.contains(first));
    lemma_path_bound(items, one);
    if let StyleBody::Alias(e) = a.body {
        assert(style_sum(items, e, one) == named_style(items, second, one));
    }
    if let StyleBody::Alias(e) = b.body {
        assert(style_sum(items, e, two) == named_style(items, first, two));
    }
}

} // verus!
