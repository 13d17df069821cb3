//! What holds of lowered suites, stores and widgets, told from what a reader of
//! the source and of the result sees: names, types, values and visibility.

use crate::ast::{
    ClassDecl, ClassMember, Expr, ExprKind, Field, FnDecl, Item, LetDecl, Module, PropertyDecl,
    SignalDecl, StateField, StateFieldKind, StoreDecl, TypeExpr, TypeKind, WidgetDecl,
};
use crate::ast_copy::{same_expr, same_type_expr};
use crate::desugar_state::{
    are_state_pairs, expr_lifted, is_state_pair, item_lifted, lifted_count, object_fields,
    object_lifted, prop_fields, state_lifted,
};
use crate::desugar_store::{is_store_class, made_pub, store_count, store_lowered, stores_lowered};
use crate::desugar_suite::{flattened, flattened_item};
use vstd::prelude::*;

verus! {

// ---- suites ------------------------------------------------------------------------

proof fn lemma_flattened_prefix(a: Seq<Item>, b: Seq<Item>, n: int)
    requires
        0 <= n <= a.len(),
    ensures
        flattened(a + b, n) == flattened(a, n),
    decreases n,
{
    if n > 0 {
        lemma_flattened_prefix(a, b, n - 1);
        assert((a + b)[n - 1] == a[n - 1]);
    }
}

proof fn lemma_flattened_rest(a: Seq<Item>, b: Seq<Item>, n: int)
    requires
        0 <= n <= b.len(),
    ensures
        flattened(a + b, a.len() + n) == flattened(a, a.len() as int) + flattened(b, n),
    decreases n,
{
    if n > 0 {
        lemma_flattened_rest(a, b, n - 1);
        assert((a + b)[a.len() + n - 1] == b[n - 1]);
        assert(flattened(a, a.len() as int) + (flattened(b, n - 1) + flattened_item(b[n - 1]))
            =~= (flattened(a, a.len() as int) + flattened(b, n - 1)) + flattened_item(b[n - 1]));
    } else {
        lemma_flattened_prefix(a, b, a.len() as int);
        assert(flattened(a, a.len() as int) + Seq::<Item>::empty() =~= flattened(
            a,
            a.len() as int,
        ));
    }
}

/// Items that follow each other are flattened one by one, in their order.
pub proof fn law_items_are_flattened_in_order(a: Seq<Item>, b: Seq<Item>)
    ensures
        flattened(a + b, (a + b).len() as int) == flattened(a, a.len() as int) + flattened(
            b,
            b.len() as int,
        ),
{
    lemma_flattened_rest(a, b, b.len() as int);
}

/// A suite gives way to all of its tests, as functions, in their order; any
/// other item stays.
pub proof fn law_suites_give_way_to_their_tests(item: Item)
    ensures
        match item {
            Item::Suite(s) => {
                &&& flattened(seq![item], 1).len() == s.tests@.len()
                &&& forall|k: int|
                    0 <= k < s.tests@.len() ==> #[trigger] flattened(seq![item], 1)[k] == Item::Fn(
                        s.tests@[k],
                    )
            },
            _ => flattened(seq![item], 1) == seq![item],
        },
{
    reveal_with_fuel(flattened, 2);
    assert(seq![item][0] == item);
    assert(Seq::<Item>::empty() + flattened_item(item) =~= flattened_item(item));
}

// ---- state fields ------------------------------------------------------------------

/// What a class says of a `state` field: a public property with the field's
/// name, type and first value, and behind it the public signal that announces
/// each change, named after the field.
pub open spec fn tells_of(sf: StateField, first: ClassMember, second: ClassMember) -> bool {
    match (first, second, sf.kind) {
        (
            ClassMember::Property(p),
            ClassMember::Signal(s),
            StateFieldKind::Property { ty },
        ) => {
            &&& p.is_pub && s.is_pub
            &&& p.name.name@ == sf.name.name@
            &&& same_type_expr(ty, p.ty)
            &&& p.default matches Some(value) && same_expr(sf.init_expr, value)
            &&& p.notify matches Some(signal) && signal.name@ == s.name.name@
            &&& s.name.name@ == sf.name.name@ + "Changed"@
            &&& s.params@.len() == 0
            &&& p.binding is None && p.fresh is None && !p.constant
        },
        _ => false,
    }
}

proof fn lemma_prop_field_kept(fields: Seq<StateField>, n: int, i: int) -> (k: int)
    requires
        0 <= i < n <= fields.len(),
        fields[i].kind is Property,
    ensures
        0 <= k < prop_fields(fields, n).len(),
        prop_fields(fields, n)[k] == fields[i],
    decreases n,
{
    if i == n - 1 {
        prop_fields(fields, n - 1).len() as int
    } else {
        lemma_prop_field_kept(fields, n - 1, i)
    }
}

proof fn lemma_prop_field_source(fields: Seq<StateField>, n: int, k: int) -> (i: int)
    requires
        0 <= n <= fields.len(),
        0 <= k < prop_fields(fields, n).len(),
    ensures
        0 <= i < n,
        fields[i] == prop_fields(fields, n)[k],
        fields[i].kind is Property,
    decreases n,
{
    let before = prop_fields(fields, n - 1);
    if k < before.len() {
        lemma_prop_field_source(fields, n - 1, k)
    } else {
        n - 1
    }
}

proof fn lemma_object_field_kept(fields: Seq<StateField>, n: int, i: int) -> (k: int)
    requires
        0 <= i < n <= fields.len(),
        fields[i].kind is Object,
    ensures
        0 <= k < object_fields(fields, n).len(),
        object_fields(fields, n)[k] == fields[i],
    decreases n,
{
    if i == n - 1 {
        object_fields(fields, n - 1).len() as int
    } else {
        lemma_object_field_kept(fields, n - 1, i)
    }
}

proof fn lemma_split_fields(fields: Seq<StateField>, n: int)
    requires
        0 <= n <= fields.len(),
    ensures
        prop_fields(fields, n).len() + object_fields(fields, n).len() == n,
    decreases n,
{
    if n > 0 {
        lemma_split_fields(fields, n - 1);
    }
}

/// Every `state` field is told of by two members that stand together.
pub proof fn law_state_fields_are_told_of(
    fields: Seq<StateField>,
    members: Seq<ClassMember>,
    i: int,
) -> (k: int)
    requires
        are_state_pairs(prop_fields(fields, fields.len() as int), members),
        0 <= i < fields.len(),
        fields[i].kind is Property,
    ensures
        0 <= k < members.len() - 1,
        tells_of(fields[i], members[k], members[k + 1]),
{
    let k = lemma_prop_field_kept(fields, fields.len() as int, i);
    let props = prop_fields(fields, fields.len() as int);
    assert(is_state_pair(props[k], members[2 * k], members[2 * k + 1]));
    2 * k
}

/// Nothing else is told: each property among the members stands for a `state`
/// field.
pub proof fn law_state_members_come_of_fields(
    fields: Seq<StateField>,
    members: Seq<ClassMember>,
    k: int,
) -> (i: int)
    requires
        are_state_pairs(prop_fields(fields, fields.len() as int), members),
        0 <= k < members.len(),
        members[k] is Property,
    ensures
        0 <= i < fields.len(),
        k + 1 < members.len(),
        tells_of(fields[i], members[k], members[k + 1]),
{
    let props = prop_fields(fields, fields.len() as int);
    let h = k / 2;
    assert(is_state_pair(props[h], members[2 * h], members[2 * h + 1]));
    assert(k == 2 * h || k == 2 * h + 1);
    lemma_prop_field_source(fields, fields.len() as int, h)
}

// ---- stores ------------------------------------------------------------------------

/// The member can be seen from outside its class. Constructors and destructors
/// always can.
pub open spec fn is_visible(m: ClassMember) -> bool {
    match m {
        ClassMember::Property(p) => p.is_pub,
        ClassMember::Signal(s) => s.is_pub,
        ClassMember::Fn(f) | ClassMember::Slot(f) => f.is_pub,
        ClassMember::Field(f) => f.is_pub,
        ClassMember::Init(_) | ClassMember::Deinit(_) => true,
    }
}

/// The member without its visibility.
pub open spec fn hidden(m: ClassMember) -> ClassMember {
    match m {
        ClassMember::Property(p) => ClassMember::Property(PropertyDecl { is_pub: false, ..p }),
        ClassMember::Signal(s) => ClassMember::Signal(SignalDecl { is_pub: false, ..s }),
        ClassMember::Fn(f) => ClassMember::Fn(FnDecl { is_pub: false, ..f }),
        ClassMember::Slot(f) => ClassMember::Slot(FnDecl { is_pub: false, ..f }),
        ClassMember::Field(f) => ClassMember::Field(Field { is_pub: false, ..f }),
        ClassMember::Init(_) | ClassMember::Deinit(_) => m,
    }
}

/// The type that one name alone denotes.
pub open spec fn denotes(t: TypeExpr, name: Seq<char>) -> bool {
    t.kind matches TypeKind::Named { path, args } && args@.len() == 0 && path@.len() == 1
        && path[0].name@ == name
}

/// The expression that one name alone is.
pub open spec fn names(e: Expr, name: Seq<char>) -> bool {
    e.kind matches ExprKind::Ident(n) && n@ == name
}

/// A member of a store keeps all that it is, and can be seen.
pub proof fn law_made_public_members_keep_the_rest(a: ClassMember, b: ClassMember)
    requires
        made_pub(a, b),
    ensures
        is_visible(b),
        hidden(b) == hidden(a),
{
}

/// The own members of a store stand at the end of its class, in their order,
/// and every member of the class can be seen.
pub proof fn law_store_members_are_kept(s: StoreDecl, c: ClassDecl)
    requires
        is_store_class(s, c),
    ensures
        c.members@.len() >= s.members@.len(),
        forall|k: int|
            #![trigger s.members@[k]]
            0 <= k < s.members@.len() ==> hidden(
                c.members@[c.members@.len() - s.members@.len() + k],
            ) == hidden(s.members@[k]),
        forall|j: int| 0 <= j < c.members@.len() ==> is_visible(#[trigger] c.members@[j]),
{
    let fields = prop_fields(s.state_fields@, s.state_fields@.len() as int);
    let pairs = 2 * fields.len() as int;
    let front = c.members@.take(pairs);
    assert forall|k: int|
        #![trigger s.members@[k]]
        0 <= k < s.members@.len() implies hidden(
        c.members@[c.members@.len() - s.members@.len() + k],
    ) == hidden(s.members@[k]) by {
        assert(made_pub(s.members@[k], c.members@[pairs + k]));
    }
    assert forall|j: int| 0 <= j < c.members@.len() implies is_visible(
        #[trigger] c.members@[j],
    ) by {
        if j < pairs {
            let h = j / 2;
            assert(is_state_pair(fields[h], front[2 * h], front[2 * h + 1]));
            assert(j == 2 * h || j == 2 * h + 1);
            assert(front[j] == c.members@[j]);
        } else {
            assert(made_pub(s.members@[j - pairs], c.members@[pairs + (j - pairs)]));
        }
    }
}

/// Every `state` field of a store is told of by its class.
pub proof fn law_store_state_is_told_of(s: StoreDecl, c: ClassDecl, i: int) -> (k: int)
    requires
        is_store_class(s, c),
        0 <= i < s.state_fields@.len(),
        s.state_fields@[i].kind is Property,
    ensures
        0 <= k < c.members@.len() - 1,
        tells_of(s.state_fields@[i], c.members@[k], c.members@[k + 1]),
{
    let fields = prop_fields(s.state_fields@, s.state_fields@.len() as int);
    let front = c.members@.take(2 * fields.len() as int);
    let k = law_state_fields_are_told_of(s.state_fields@, front, i);
    assert(front[k] == c.members@[k] && front[k + 1] == c.members@[k + 1]);
    k
}

/// `l` makes the one object of the class `name`, under the name of the class.
pub open spec fn makes_the_one(l: LetDecl, name: Seq<char>) -> bool {
    &&& l.name.name@ == name
    &&& denotes(l.ty, name)
    &&& l.value.kind matches ExprKind::MethodCall { receiver, method, args, block, type_args }
        && names(*receiver, name) && method.name@ == "new"@ && args@.len() == 0
}

/// A store becomes a class of `QObject`s that bears its name and, next to it,
/// the one object of that class; both are as public as the store.
pub proof fn law_stores_become_one_object(a: Module, b: Module, i: int) -> (j: int)
    requires
        stores_lowered(a, b),
        0 <= i < a.items@.len(),
        a.items@[i] is Store,
    ensures
        i <= j < b.items@.len() - 1,
        match (a.items@[i], b.items@[j], b.items@[j + 1]) {
            (Item::Store(s), Item::Class(c), Item::Let(l)) => {
                &&& c.name.name@ == s.name.name@
                &&& c.super_class matches Some(t) && denotes(t, "QObject"@)
                &&& makes_the_one(l, s.name.name@)
                &&& c.is_pub == s.is_pub
                &&& l.is_pub == s.is_pub
            },
            _ => false,
        },
{
    let items = a.items@;
    let j = store_count(items, i);
    assert(store_lowered(items[i], b.items@, j));
    lemma_store_room(items, i, items.len() as int);
    j
}

proof fn lemma_store_room(items: Seq<Item>, i: int, n: int)
    requires
        0 <= i < n,
    ensures
        i <= store_count(items, i),
        store_count(items, i) + (if items[i] is Store {
            2int
        } else {
            1int
        }) <= store_count(items, n),
    decreases n,
{
    if i < n - 1 {
        lemma_store_room(items, i, n - 1);
    } else if i > 0 {
        lemma_store_room(items, i - 1, i);
    }
}

/// Items that are no stores stay, in their order.
pub proof fn law_other_items_stay_beside_stores(a: Module, b: Module, i: int, k: int) -> (r: (
    int,
    int,
))
    requires
        stores_lowered(a, b),
        0 <= i < k < a.items@.len(),
        !(a.items@[i] is Store),
        !(a.items@[k] is Store),
    ensures
        0 <= r.0 < r.1 < b.items@.len(),
        b.items@[r.0] == a.items@[i],
        b.items@[r.1] == a.items@[k],
{
    let items = a.items@;
    assert(store_lowered(items[i], b.items@, store_count(items, i)));
    assert(store_lowered(items[k], b.items@, store_count(items, k)));
    lemma_store_room(items, i, k);
    lemma_store_room(items, k, items.len() as int);
    (store_count(items, i), store_count(items, k))
}

// ---- widgets -----------------------------------------------------------------------

/// The class that keeps the state of the widget, and the widget that reads it:
/// the class is named after the widget, and the widget makes one object of it
/// before anything else.
pub open spec fn is_kept_by(w: WidgetDecl, c: ClassDecl, lifted: WidgetDecl) -> bool {
    &&& c.name.name@ == "__"@ + w.name.name@ + "State"@
    &&& c.super_class matches Some(t) && denotes(t, "QObject"@)
    &&& lifted.name.name@ == w.name.name@
    &&& lifted.params == w.params
    &&& lifted.is_pub == w.is_pub
    &&& lifted.state_fields@.len() > 0
    &&& lifted.state_fields@[0].name.name@ == "__cute_state"@
    &&& lifted.state_fields@[0].kind is Object
    &&& lifted.state_fields@[0].init_expr.kind matches ExprKind::Call {
        callee,
        args,
        block,
        type_args,
    } && names(*callee, c.name.name@) && args@.len() == 0
}

proof fn lemma_lifted_room(items: Seq<Item>, i: int, n: int)
    requires
        0 <= i < n,
    ensures
        i <= lifted_count(items, i),
        lifted_count(items, i) + (if crate::desugar_state::has_state(items[i]) {
            2int
        } else {
            1int
        }) <= lifted_count(items, n),
    decreases n,
{
    if i < n - 1 {
        lemma_lifted_room(items, i, n - 1);
    } else if i > 0 {
        lemma_lifted_room(items, i - 1, i);
    }
}

/// A widget with a `state` field is preceded by the class that keeps its
/// state. The class tells of each `state` field, and the widget keeps each
/// `let` field behind the object of the class, and no other.
pub proof fn law_widget_state_is_kept(a: Module, b: Module, i: int, f: int) -> (j: int)
    requires
        state_lifted(a, b),
        0 <= i < a.items@.len(),
        a.items@[i] matches Item::Widget(w) && 0 <= f < w.state_fields@.len()
            && w.state_fields@[f].kind is Property,
    ensures
        i <= j < b.items@.len() - 1,
        match (a.items@[i], b.items@[j], b.items@[j + 1]) {
            (Item::Widget(w), Item::Class(c), Item::Widget(lifted)) => {
                &&& is_kept_by(w, c, lifted)
                &&& exists|k: int|
                    0 <= k < c.members@.len() - 1 && tells_of(
                        w.state_fields@[f],
                        #[trigger] c.members@[k],
                        c.members@[k + 1],
                    )
                &&& 2 * w.state_fields@.len() == c.members@.len() + 2 * (
                lifted.state_fields@.len() - 1)
            },
            _ => false,
        },
{
    let items = a.items@;
    let w = items[i]->Widget_0;
    let fields = w.state_fields@;
    let n = fields.len() as int;
    let at = lemma_prop_field_kept(fields, n, f);
    assert(crate::desugar_state::has_state(items[i]));
    let j = lifted_count(items, i);
    assert(item_lifted(items[i], b.items@, j));
    lemma_lifted_room(items, i, items.len() as int);
    let c = b.items@[j]->Class_0;
    let k = law_state_fields_are_told_of(fields, c.members@, f);
    assert(tells_of(fields[f], c.members@[k], c.members@[k + 1]));
    lemma_split_fields(fields, n);
    j
}

/// A `let` field of a widget with state is kept under its name, behind the
/// object that keeps the state.
pub proof fn law_widget_objects_are_kept(a: Module, b: Module, i: int, f: int) -> (r: (int, int))
    requires
        state_lifted(a, b),
        0 <= i < a.items@.len(),
        crate::desugar_state::has_state(a.items@[i]),
        a.items@[i] matches Item::Widget(w) && 0 <= f < w.state_fields@.len()
            && w.state_fields@[f].kind is Object,
    ensures
        0 <= r.0 < b.items@.len(),
        match (a.items@[i], b.items@[r.0]) {
            (Item::Widget(w), Item::Widget(lifted)) => {
                &&& 1 <= r.1 < lifted.state_fields@.len()
                &&& lifted.state_fields@[r.1].name.name@ == w.state_fields@[f].name.name@
                &&& lifted.state_fields@[r.1].kind is Object
            },
            _ => false,
        },
{
    let items = a.items@;
    let w = items[i]->Widget_0;
    let fields = w.state_fields@;
    let n = fields.len() as int;
    let at = lemma_object_field_kept(fields, n, f);
    let j = lifted_count(items, i);
    assert(item_lifted(items[i], b.items@, j));
    lemma_lifted_room(items, i, items.len() as int);
    let lifted = b.items@[j + 1]->Widget_0;
    assert(object_lifted(
        crate::desugar_state::state_names(w),
        object_fields(fields, n)[at],
        lifted.state_fields@[at + 1],
    ));
    (j + 1, at + 1)
}

/// Items other than widgets with state stay, in their order.
pub proof fn law_other_items_stay_beside_widgets(a: Module, b: Module, i: int, k: int) -> (r: (
    int,
    int,
))
    requires
        state_lifted(a, b),
        0 <= i < k < a.items@.len(),
        !(a.items@[i] is Widget),
        !(a.items@[k] is Widget),
    ensures
        0 <= r.0 < r.1 < b.items@.len(),
        b.items@[r.0] == a.items@[i],
        b.items@[r.1] == a.items@[k],
{
    let items = a.items@;
    assert(item_lifted(items[i], b.items@, lifted_count(items, i)));
    assert(item_lifted(items[k], b.items@, lifted_count(items, k)));
    lemma_lifted_room(items, i, k);
    lemma_lifted_room(items, k, items.len() as int);
    (lifted_count(items, i), lifted_count(items, k))
}

/// Where an expression named a `state` field, the lifted one reads the member
/// of that name from the object that keeps the state; any other name stays.
pub proof fn law_state_names_read_the_object(
    props: Seq<Seq<char>>,
    a: Expr,
    b: Expr,
    name: Seq<char>,
)
    requires
        expr_lifted(props, a, b),
        names(a, name),
    ensures
        props.contains(name) ==> (b.kind matches ExprKind::Member { receiver, name: read } && names(
            *receiver,
            "__cute_state"@,
        ) && read.name@ == name),
        !props.contains(name) ==> names(b, name),
{
    reveal_with_fuel(expr_lifted, 1);
}

} // verus!
