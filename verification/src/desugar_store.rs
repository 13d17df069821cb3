//! Stores. `store Foo { state x : T = init ... }` becomes a class and its one
//! object:
//!
//! ```text
//! class Foo < QObject {
//!   pub prop x : T, notify: :xChanged, default: init
//!   pub signal xChanged
//!   pub ...
//! }
//! let Foo : Foo = Foo.new()
//! ```

use crate::ast::{
    ClassDecl, ClassMember, Expr, ExprKind, Ident, Item, LetDecl, Module, Span, StoreDecl, TypeExpr,
    TypeKind,
};
use crate::ast_copy::{copy_ident, same_ident};
use crate::desugar_state::{
    are_state_pairs, is_qobject_type, prop_fields, qobject_type, state_members,
};
use crate::mangle::is_ident;
use vstd::prelude::*;

verus! {

/// `b` is the member `a`, made public where it has a visibility.
pub open spec fn made_pub(a: ClassMember, b: ClassMember) -> bool {
    match a {
        ClassMember::Property(x) => match b {
            ClassMember::Property(y) => y == (crate::ast::PropertyDecl { is_pub: true, ..x }),
            _ => false,
        },
        ClassMember::Signal(x) => match b {
            ClassMember::Signal(y) => y == (crate::ast::SignalDecl { is_pub: true, ..x }),
            _ => false,
        },
        ClassMember::Fn(x) => match b {
            ClassMember::Fn(y) => y == (crate::ast::FnDecl { is_pub: true, ..x }),
            _ => false,
        },
        ClassMember::Slot(x) => match b {
            ClassMember::Slot(y) => y == (crate::ast::FnDecl { is_pub: true, ..x }),
            _ => false,
        },
        ClassMember::Field(x) => match b {
            ClassMember::Field(y) => y == (crate::ast::Field { is_pub: true, ..x }),
            _ => false,
        },
        ClassMember::Init(_) | ClassMember::Deinit(_) => b == a,
    }
}

/// The member, made public where it has a visibility.
pub fn make_pub(m: ClassMember) -> (r: ClassMember)
    ensures
        made_pub(m, r),
{
    match m {
        ClassMember::Property(p) => {
            let mut p = p;
            p.is_pub = true;
            ClassMember::Property(p)
        },
        ClassMember::Signal(s) => {
            let mut s = s;
            s.is_pub = true;
            ClassMember::Signal(s)
        },
        ClassMember::Fn(f) => {
            let mut f = f;
            f.is_pub = true;
            ClassMember::Fn(f)
        },
        ClassMember::Slot(f) => {
            let mut f = f;
            f.is_pub = true;
            ClassMember::Slot(f)
        },
        ClassMember::Field(f) => {
            let mut f = f;
            f.is_pub = true;
            ClassMember::Field(f)
        },
        ClassMember::Init(i) => ClassMember::Init(i),
        ClassMember::Deinit(d) => ClassMember::Deinit(d),
    }
}

/// The members of a store's class: the property and the signal of each `state`
/// field, pair by pair, and then the store's own members, all public.
pub open spec fn are_store_members(s: StoreDecl, members: Seq<ClassMember>) -> bool {
    let fields = prop_fields(s.state_fields@, s.state_fields@.len() as int);
    let pairs = 2 * fields.len() as int;
    &&& members.len() == pairs + s.members@.len()
    &&& are_state_pairs(fields, members.take(pairs))
    &&& forall|k: int|
        0 <= k < s.members@.len() ==> made_pub(#[trigger] s.members@[k], members[pairs + k])
}

/// `c` is the class of the store `s`.
pub open spec fn is_store_class(s: StoreDecl, c: ClassDecl) -> bool {
    &&& same_ident(s.name, c.name)
    &&& c.generics@.len() == 0
    &&& is_qobject_type(c.super_class, s.span)
    &&& are_store_members(s, c.members@)
    &&& c.is_pub == s.is_pub
    &&& !c.is_extern_value && !c.is_arc && c.is_copyable
    &&& c.span == s.span
}

/// `l` is `let Name : Name = Name.new()`.
pub open spec fn is_singleton_let(name: Ident, span: Span, is_pub: bool, l: LetDecl) -> bool {
    &&& same_ident(name, l.name)
    &&& l.is_pub == is_pub
    &&& l.span == span
    &&& l.ty.span == span
    &&& match l.ty.kind {
        TypeKind::Named { path, args } => path@.len() == 1 && same_ident(name, path[0]) && args@.len()
            == 0,
        _ => false,
    }
    &&& l.value.span == span
    &&& match l.value.kind {
        ExprKind::MethodCall { receiver, method, args, block, type_args } => {
            &&& is_ident(receiver.kind, name.name@)
            &&& receiver.span == span
            &&& method.name@ == "new"@
            &&& method.span == span
            &&& args@.len() == 0
            &&& block is None
            &&& type_args@.len() == 0
        },
        _ => false,
    }
}

/// The class of a store.
pub fn synthesize_store_class(s: StoreDecl) -> (r: ClassDecl)
    ensures
        is_store_class(s, r),
{
    let span = s.span;
    let mut members = state_members(&s.state_fields);
    let ghost pairs = members@;
    let ghost own = s.members@;
    for m in it: s.members
        invariant
            it.seq() == own,
            members@.len() == pairs.len() + it.index(),
            members@.take(pairs.len() as int) == pairs,
            forall|k: int|
                0 <= k < it.index() ==> made_pub(#[trigger] own[k], members@[pairs.len() + k]),
    {
        let ghost before = members@;
        members.push(make_pub(m));
        assert(members@.take(pairs.len() as int) =~= before.take(pairs.len() as int));
    }
    ClassDecl {
        name: copy_ident(&s.name),
        generics: Vec::new(),
        super_class: Some(qobject_type(span)),
        members,
        is_pub: s.is_pub,
        is_extern_value: false,
        is_arc: false,
        is_copyable: true,
        span,
    }
}

/// `let Name : Name = Name.new()`.
pub fn synthesize_singleton_let(name: Ident, span: Span, is_pub: bool) -> (r: LetDecl)
    ensures
        is_singleton_let(name, span, is_pub, r),
{
    let mut path: Vec<Ident> = Vec::new();
    path.push(copy_ident(&name));
    let ty = TypeExpr { kind: TypeKind::Named { path, args: Vec::new() }, span };
    let value = Expr {
        kind: ExprKind::MethodCall {
            receiver: Box::new(Expr { kind: ExprKind::Ident(name.name.clone()), span }),
            method: Ident { name: "new".to_owned(), span },
            args: Vec::new(),
            block: None,
            type_args: Vec::new(),
        },
        span,
    };
    LetDecl { name, ty, value, is_pub, span }
}

/// The number of items that the first `n` items become: a store becomes two,
/// every other item stays one.
pub open spec fn store_count(items: Seq<Item>, n: int) -> int
    decreases n,
{
    if n <= 0 {
        0
    } else {
        store_count(items, n - 1) + if items[n - 1] is Store {
            2int
        } else {
            1int
        }
    }
}

/// What item `a` becomes, in `out` from position `at` on.
pub open spec fn store_lowered(a: Item, out: Seq<Item>, at: int) -> bool {
    match a {
        Item::Store(s) => match out[at] {
            Item::Class(c) => match out[at + 1] {
                Item::Let(l) => is_store_class(s, c) && is_singleton_let(s.name, s.span, s.is_pub, l),
                _ => false,
            },
            _ => false,
        },
        _ => out[at] == a,
    }
}

/// `b` is the module `a` with every store lowered.
pub open spec fn stores_lowered(a: Module, b: Module) -> bool {
    let items = a.items@;
    &&& b.span == a.span
    &&& b.items@.len() == store_count(items, items.len() as int)
    &&& forall|i: int|
        0 <= i < items.len() ==> store_lowered(#[trigger] items[i], b.items@, store_count(items, i))
}

proof fn lemma_store_count(items: Seq<Item>, i: int, n: int)
    requires
        0 <= i < n,
    ensures
        0 <= store_count(items, i),
        store_count(items, i) + (if items[i] is Store {
            2int
        } else {
            1int
        }) <= store_count(items, n),
    decreases n,
{
    if i < n - 1 {
        lemma_store_count(items, i, n - 1);
    } else if i > 0 {
        lemma_store_count(items, i - 1, i);
    }
}

/// Lowers every store of the module to its class and its object.
pub fn desugar_store(module: Module) -> (r: Module)
    ensures
        stores_lowered(module, r),
{
    let mut out: Vec<Item> = Vec::new();
    let ghost items = module.items@;
    let span = module.span;
    for item in it: module.items
        invariant
            it.seq() == items,
            out@.len() == store_count(items, it.index() as int),
            forall|i: int|
                0 <= i < it.index() ==> store_lowered(
                    #[trigger] items[i],
                    out@,
                    store_count(items, i),
                ),
    {
        let ghost before = out@;
        let ghost at = it.index() as int;
        let ghost entry = item;
        assert(entry == items[at]);
        match item {
            Item::Store(s) => {
                let name = copy_ident(&s.name);
                let store_span = s.span;
                let is_pub = s.is_pub;
                out.push(Item::Class(synthesize_store_class(s)));
                out.push(Item::Let(synthesize_singleton_let(name, store_span, is_pub)));
            },
            other => {
                out.push(other);
            },
        }
        proof {
            assert forall|i: int| 0 <= i < at + 1 implies store_lowered(
                #[trigger] items[i],
                out@,
                store_count(items, i),
            ) by {
                if i < at {
                    lemma_store_count(items, i, at);
                    let o = store_count(items, i);
                    assert(out@[o] == before[o]);
                    if items[i] is Store {
                        assert(out@[o + 1] == before[o + 1]);
                    }
                }
            }
        }
    }
    Module { items: out, span }
}

// ---- laws ---------------------------------------------------------------------------

proof fn lemma_store_source(items: Seq<Item>, n: int, j: int) -> (i: int)
    requires
        0 <= n <= items.len(),
        0 <= j < store_count(items, n),
    ensures
        0 <= i < n,
        j == store_count(items, i) || (items[i] is Store && j == store_count(items, i) + 1),
    decreases n,
{
    if j >= store_count(items, n - 1) {
        n - 1
    } else {
        lemma_store_source(items, n - 1, j)
    }
}

/// After lowering, no store is left.
pub proof fn law_no_store_remains(a: Module, b: Module, j: int)
    requires
        stores_lowered(a, b),
        0 <= j < b.items@.len(),
    ensures
        !(b.items@[j] is Store),
{
    let items = a.items@;
    let i = lemma_store_source(items, items.len() as int, j);
    assert(store_lowered(items[i], b.items@, store_count(items, i)));
}

proof fn lemma_store_identity(items: Seq<Item>, n: int)
    requires
        0 <= n <= items.len(),
        forall|i: int| 0 <= i < items.len() ==> !(#[trigger] items[i] is Store),
    ensures
        store_count(items, n) == n,
    decreases n,
{
    if n > 0 {
        lemma_store_identity(items, n - 1);
    }
}

/// A module without a store passes through unchanged.
pub proof fn law_storeless_unchanged(a: Module, b: Module)
    requires
        stores_lowered(a, b),
        forall|i: int| 0 <= i < a.items@.len() ==> !(#[trigger] a.items@[i] is Store),
    ensures
        b.items@ == a.items@,
{
    let items = a.items@;
    lemma_store_identity(items, items.len() as int);
    assert forall|i: int| 0 <= i < items.len() implies b.items@[i] == items[i] by {
        lemma_store_identity(items, i);
        assert(store_lowered(items[i], b.items@, store_count(items, i)));
    }
    assert(b.items@ =~= a.items@);
}

} // verus!
