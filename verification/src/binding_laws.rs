//! What holds of loaded bindings: which types a namespace moves, and which QML
//! modules are used.

use crate::ast::{ClassDecl, ClassMember, Ident, Item, Module, Param, TypeExpr, TypeKind};
use crate::binding::{
    class_member_namespaced, class_names, is_bundled, is_rooted, item_namespaced, item_qml_uses,
    module_namespaced, param_namespaced, params_namespaced, path_namespaced, qml_uses, rooted,
    type_expr_namespaced, type_exprs_namespaced, type_kind_namespaced,
};
use crate::project_laws::lemma_pushed;
use vstd::prelude::*;

verus! {

// ---- the words of a type -----------------------------------------------------------

/// What a type is written with: names of classes, and the marks of options, of
/// types that can fail and of functions.
pub enum TypeWord {
    Path(Seq<Seq<char>>),
    Option,
    Failing,
    Function,
    Own,
}

pub open spec fn path_words(path: Seq<Ident>) -> Seq<Seq<char>> {
    path.map_values(|i: Ident| i.name@)
}

/// The words of a type, in the order in which they are written.
pub open spec fn type_words(t: TypeExpr) -> Seq<TypeWord>
    decreases t, 0int,
{
    match t.kind {
        TypeKind::Named { path, args } => seq![TypeWord::Path(path_words(path@))] + all_words(
            args,
            args@.len() as int,
        ),
        TypeKind::Nullable(inner) => type_words(*inner).push(TypeWord::Option),
        TypeKind::ErrorUnion(inner) => type_words(*inner).push(TypeWord::Failing),
        TypeKind::Fn { params, ret } => all_words(params, params@.len() as int).push(
            TypeWord::Function,
        ) + type_words(*ret),
        TypeKind::SelfType => seq![TypeWord::Own],
    }
}

/// The words of the first `n` types.
pub open spec fn all_words(v: Vec<TypeExpr>, n: int) -> Seq<TypeWord>
    decreases v, n,
{
    if 0 < n <= v@.len() {
        all_words(v, n - 1) + type_words(v[n - 1])
    } else {
        Seq::empty()
    }
}

/// The word in the namespace: the name of a declared class has the prefix, and
/// every other word stays.
pub open spec fn moved(declared: Seq<Seq<char>>, prefix: Seq<char>, w: TypeWord) -> TypeWord {
    match w {
        TypeWord::Path(p) => if p.len() > 0 && declared.contains(p.last()) {
            TypeWord::Path(p.update(p.len() - 1, prefix + "_"@ + p.last()))
        } else {
            w
        },
        _ => w,
    }
}

/// `b` holds the words of `a`, each in the namespace.
pub open spec fn are_moved(
    declared: Seq<Seq<char>>,
    prefix: Seq<char>,
    a: Seq<TypeWord>,
    b: Seq<TypeWord>,
) -> bool {
    &&& b.len() == a.len()
    &&& forall|i: int| 0 <= i < a.len() ==> b[i] == moved(declared, prefix, #[trigger] a[i])
}

proof fn lemma_path(declared: Seq<Seq<char>>, prefix: Seq<char>, a: Vec<Ident>, b: Vec<Ident>)
    requires
        path_namespaced(declared, prefix, a, b),
    ensures
        TypeWord::Path(path_words(b@)) == moved(
            declared,
            prefix,
            TypeWord::Path(path_words(a@)),
        ),
{
    let p = path_words(a@);
    let q = path_words(b@);
    if a@.len() > 0 && declared.contains(a@.last().name@) {
        assert(p.last() == a@.last().name@);
        assert(q =~= p.update(p.len() - 1, prefix + "_"@ + p.last())) by {
            assert forall|i: int| 0 <= i < q.len() implies #[trigger] q[i] == p.update(
                p.len() - 1,
                prefix + "_"@ + p.last(),
            )[i] by {
                if i < a@.len() - 1 {
                    assert(crate::ast_copy::same_ident(a[i], b[i]));
                }
            }
        }
    } else {
        assert(q =~= p) by {
            assert forall|i: int| 0 <= i < q.len() implies #[trigger] q[i] == p[i] by {
                assert(crate::ast_copy::same_ident(a[i], b[i]));
            }
        }
        if p.len() > 0 {
            assert(p.last() == a@.last().name@);
        }
    }
}

proof fn lemma_sum(
    declared: Seq<Seq<char>>,
    prefix: Seq<char>,
    a: Seq<TypeWord>,
    b: Seq<TypeWord>,
    c: Seq<TypeWord>,
    d: Seq<TypeWord>,
)
    requires
        are_moved(declared, prefix, a, b),
        are_moved(declared, prefix, c, d),
    ensures
        are_moved(declared, prefix, a + c, b + d),
{
    assert forall|i: int| 0 <= i < (a + c).len() implies (b + d)[i] == moved(
        declared,
        prefix,
        #[trigger] (a + c)[i],
    ) by {
        if i < a.len() {
            assert((a + c)[i] == a[i]);
        } else {
            assert((a + c)[i] == c[i - a.len()]);
        }
    }
}

/// In a namespace, every class name of a type that the module declares has the
/// prefix, and the type is otherwise written as before.
pub proof fn law_types_move_word_by_word(
    declared: Seq<Seq<char>>,
    prefix: Seq<char>,
    a: TypeExpr,
    b: TypeExpr,
)
    requires
        type_expr_namespaced(declared, prefix, a, b),
    ensures
        are_moved(declared, prefix, type_words(a), type_words(b)),
    decreases a, 0int,
{
    assert(type_kind_namespaced(declared, prefix, a.kind, b.kind));
    match a.kind {
        TypeKind::Named { path, args } => {
            let path2 = b.kind->Named_path;
            let args2 = b.kind->Named_args;
            lemma_path(declared, prefix, path, path2);
            lemma_all_words(declared, prefix, args, args2, args@.len() as int);
            let one = seq![TypeWord::Path(path_words(path@))];
            let two = seq![TypeWord::Path(path_words(path2@))];
            assert(are_moved(declared, prefix, one, two));
            lemma_sum(
                declared,
                prefix,
                one,
                two,
                all_words(args, args@.len() as int),
                all_words(args2, args2@.len() as int),
            );
        },
        TypeKind::Nullable(x) => {
            law_types_move_word_by_word(declared, prefix, *x, *(b.kind->Nullable_0));
        },
        TypeKind::ErrorUnion(x) => {
            law_types_move_word_by_word(declared, prefix, *x, *(b.kind->ErrorUnion_0));
        },
        TypeKind::Fn { params, ret } => {
            let params2 = b.kind->Fn_params;
            let ret2 = b.kind->Fn_ret;
            lemma_all_words(declared, prefix, params, params2, params@.len() as int);
            law_types_move_word_by_word(declared, prefix, *ret, *ret2);
            let one = all_words(params, params@.len() as int).push(TypeWord::Function);
            let two = all_words(params2, params2@.len() as int).push(TypeWord::Function);
            assert(are_moved(declared, prefix, one, two));
            lemma_sum(declared, prefix, one, two, type_words(*ret), type_words(*ret2));
        },
        TypeKind::SelfType => {},
    }
}

proof fn lemma_all_words(
    declared: Seq<Seq<char>>,
    prefix: Seq<char>,
    a: Vec<TypeExpr>,
    b: Vec<TypeExpr>,
    n: int,
)
    requires
        type_exprs_namespaced(declared, prefix, a, b),
        0 <= n <= a@.len(),
    ensures
        are_moved(declared, prefix, all_words(a, n), all_words(b, n)),
    decreases a, n,
{
    if n > 0 {
        lemma_all_words(declared, prefix, a, b, n - 1);
        assert(type_expr_namespaced(declared, prefix, a[n - 1], b[n - 1]));
        assert(decreases_to!(a => a[n - 1]));
        law_types_move_word_by_word(declared, prefix, a[n - 1], b[n - 1]);
        lemma_sum(
            declared,
            prefix,
            all_words(a, n - 1),
            all_words(b, n - 1),
            type_words(a[n - 1]),
            type_words(b[n - 1]),
        );
    }
}

// ---- the types of a class ----------------------------------------------------------

pub open spec fn param_types(params: Seq<Param>) -> Seq<TypeExpr> {
    params.map_values(|p: Param| p.ty)
}

/// The types that a member is declared with: that of a property or field, and
/// those of parameters and results.
pub open spec fn member_types(m: ClassMember) -> Seq<TypeExpr> {
    match m {
        ClassMember::Property(p) => seq![p.ty],
        ClassMember::Signal(s) => param_types(s.params@),
        ClassMember::Fn(f) | ClassMember::Slot(f) => match f.return_ty {
            Some(t) => param_types(f.params@).push(t),
            None => param_types(f.params@),
        },
        ClassMember::Field(f) => seq![f.ty],
        ClassMember::Init(i) => param_types(i.params@),
        ClassMember::Deinit(_) => Seq::empty(),
    }
}

/// The types that a class is declared with: its base class and the types of its
/// members.
pub open spec fn is_moved_class(
    declared: Seq<Seq<char>>,
    prefix: Seq<char>,
    a: ClassDecl,
    b: ClassDecl,
) -> bool {
    &&& b.name.name@ == prefix + "_"@ + a.name.name@
    &&& match (a.super_class, b.super_class) {
        (Some(s), Some(t)) => are_moved(declared, prefix, type_words(s), type_words(t)),
        (None, None) => true,
        _ => false,
    }
    &&& b.members@.len() == a.members@.len()
    &&& forall|i: int|
        0 <= i < a.members@.len() ==> is_moved_member(
            declared,
            prefix,
            #[trigger] a.members@[i],
            b.members@[i],
        )
}

/// The member is declared with the types of the other one, each in the
/// namespace.
pub open spec fn is_moved_member(
    declared: Seq<Seq<char>>,
    prefix: Seq<char>,
    a: ClassMember,
    b: ClassMember,
) -> bool {
    &&& member_types(b).len() == member_types(a).len()
    &&& forall|k: int|
        0 <= k < member_types(a).len() ==> are_moved(
            declared,
            prefix,
            type_words(#[trigger] member_types(a)[k]),
            type_words(member_types(b)[k]),
        )
}

proof fn lemma_params(declared: Seq<Seq<char>>, prefix: Seq<char>, a: Vec<Param>, b: Vec<Param>)
    requires
        params_namespaced(declared, prefix, a, b),
    ensures
        param_types(b@).len() == param_types(a@).len(),
        forall|k: int|
            0 <= k < a@.len() ==> are_moved(
                declared,
                prefix,
                type_words(#[trigger] param_types(a@)[k]),
                type_words(param_types(b@)[k]),
            ),
{
    assert forall|k: int| 0 <= k < a@.len() implies are_moved(
        declared,
        prefix,
        type_words(#[trigger] param_types(a@)[k]),
        type_words(param_types(b@)[k]),
    ) by {
        assert(param_namespaced(declared, prefix, a[k], b[k]));
        law_types_move_word_by_word(declared, prefix, a[k].ty, b[k].ty);
    }
}

proof fn lemma_member(
    declared: Seq<Seq<char>>,
    prefix: Seq<char>,
    a: ClassMember,
    b: ClassMember,
)
    requires
        class_member_namespaced(declared, prefix, a, b),
    ensures
        is_moved_member(declared, prefix, a, b),
{
    match a {
        ClassMember::Property(p) => {
            law_types_move_word_by_word(declared, prefix, p.ty, b->Property_0.ty);
        },
        ClassMember::Signal(s) => {
            lemma_params(declared, prefix, s.params, b->Signal_0.params);
        },
        ClassMember::Fn(f) => {
            lemma_params(declared, prefix, f.params, b->Fn_0.params);
            if let Some(t) = f.return_ty {
                law_types_move_word_by_word(declared, prefix, t, b->Fn_0.return_ty->0);
            }
        },
        ClassMember::Slot(f) => {
            lemma_params(declared, prefix, f.params, b->Slot_0.params);
            if let Some(t) = f.return_ty {
                law_types_move_word_by_word(declared, prefix, t, b->Slot_0.return_ty->0);
            }
        },
        ClassMember::Field(f) => {
            law_types_move_word_by_word(declared, prefix, f.ty, b->Field_0.ty);
        },
        ClassMember::Init(i) => {
            lemma_params(declared, prefix, i.params, b->Init_0.params);
        },
        ClassMember::Deinit(_) => {},
    }
}

/// In a namespace, every class of a module has the prefix, and so has every
/// mention of one of them: as a base class, and in the types of properties,
/// fields, parameters and results.
pub proof fn law_namespaces_reach_every_type(a: Module, prefix: Seq<char>, b: Module, i: int)
    requires
        module_namespaced(a, prefix, b),
        0 <= i < a.items@.len(),
        a.items@[i] is Class,
    ensures
        b.items@[i] is Class,
        is_moved_class(
            class_names(a.items@, a.items@.len() as int),
            prefix,
            a.items@[i]->Class_0,
            b.items@[i]->Class_0,
        ),
{
    let declared = class_names(a.items@, a.items@.len() as int);
    assert(item_namespaced(declared, prefix, a.items@[i], b.items@[i]));
    let c = a.items@[i]->Class_0;
    let d = b.items@[i]->Class_0;
    if let Some(s) = c.super_class {
        law_types_move_word_by_word(declared, prefix, s, d.super_class->0);
    }
    assert forall|k: int| 0 <= k < c.members@.len() implies is_moved_member(
        declared,
        prefix,
        #[trigger] c.members@[k],
        d.members@[k],
    ) by {
        assert(class_member_namespaced(declared, prefix, c.members[k], d.members[k]));
        lemma_member(declared, prefix, c.members@[k], d.members@[k]);
    }
}

/// The declared classes of a module are the names of its classes, and no
/// others.
pub proof fn law_declared_classes(items: Seq<Item>, name: Seq<char>, n: int)
    requires
        0 <= n <= items.len(),
    ensures
        class_names(items, n).contains(name) <==> exists|i: int|
            0 <= i < n && (#[trigger] items[i] matches Item::Class(c) && c.name.name@ == name),
    decreases n,
{
    if n > 0 {
        law_declared_classes(items, name, n - 1);
        let before = class_names(items, n - 1);
        let now = class_names(items, n);
        if before.contains(name) {
            if let Item::Class(c) = items[n - 1] {
                lemma_pushed(before, c.name.name@, name);
            }
        }
        if let Item::Class(c) = items[n - 1] {
            if c.name.name@ == name {
                lemma_pushed(before, name, name);
                assert(items[n - 1] matches Item::Class(c) && c.name.name@ == name);
            }
        }
        if now.contains(name) && !before.contains(name) {
            let k = choose|k: int| 0 <= k < now.len() && now[k] == name;
            if k < before.len() {
                assert(before[k] == name);
            }
            assert(items[n - 1] matches Item::Class(c) && c.name.name@ == name);
        }
    }
}

/// Loading the standard bindings takes the base class of `QObject` away and
/// changes nothing else.
pub proof fn law_only_qobject_changes(a: Module, b: Module, i: int)
    requires
        is_rooted(a, b),
        0 <= i < a.items@.len(),
    ensures
        a.items@[i] matches Item::Class(c) && c.name.name@ == "QObject"@ ==> b.items@[i]
            == Item::Class(ClassDecl { super_class: None, ..(a.items@[i]->Class_0) }),
        !(a.items@[i] matches Item::Class(c) && c.name.name@ == "QObject"@) ==> b.items@[i]
            == a.items@[i],
{
    assert(b.items@[i] == rooted(a.items@[i]));
}

// ---- QML ---------------------------------------------------------------------------

/// The bindings of three KDE modules are bundled, and of no other QML module.
pub proof fn law_bundled_qml_modules(uri: Seq<char>)
    ensures
        uri == "org.kde.kirigami"@ || uri == "org.kde.kitemmodels"@ || uri == "org.kde.coreaddons"@
            ==> is_bundled(uri),
        is_bundled(uri) ==> uri == "org.kde.kirigami"@ || uri == "org.kde.kitemmodels"@ || uri
            == "org.kde.coreaddons"@,
{
    reveal_strlit("org.kde.kirigami");
    reveal_strlit("org.kde.kitemmodels");
    reveal_strlit("org.kde.coreaddons");
    reveal_strlit("QtQuick");
    reveal_strlit("QtQuick.Controls");
    reveal_strlit("QtQuick.Controls.Material");
    reveal_strlit("QtQuick.Layouts");
    assert("org.kde.kirigami"@[0] != "QtQuick"@[0]);
    assert("org.kde.kitemmodels"@[0] != "QtQuick"@[0]);
    assert("org.kde.coreaddons"@[0] != "QtQuick"@[0]);
    assert("QtQuick.Controls"@[0] == 'Q' && "QtQuick.Controls.Material"@[0] == 'Q'
        && "QtQuick.Layouts"@[0] == 'Q');
}

proof fn lemma_item_uses(
    uses: Seq<(Seq<char>, Option<Seq<char>>)>,
    items: Seq<Item>,
    n: int,
)
    requires
        0 <= n <= items.len(),
        uses.no_duplicates(),
    ensures
        item_qml_uses(uses, items, n).no_duplicates(),
        forall|x: (Seq<char>, Option<Seq<char>>)|
            uses.contains(x) ==> #[trigger] item_qml_uses(uses, items, n).contains(x),
        forall|i: int|
            0 <= i < n ==> (#[trigger] items[i] matches Item::UseQml(u) ==> item_qml_uses(
                uses,
                items,
                n,
            ).contains(
                (
                    u.module_uri@,
                    match u.alias {
                        Some(a) => Some(a.name@),
                        None => None,
                    },
                ),
            )),
    decreases n,
{
    if n > 0 {
        lemma_item_uses(uses, items, n - 1);
        let before = item_qml_uses(uses, items, n - 1);
        let now = item_qml_uses(uses, items, n);
        if let Item::UseQml(u) = items[n - 1] {
            let key = (u.module_uri@, crate::binding::opt_name(u.alias));
            assert forall|x: (Seq<char>, Option<Seq<char>>)| before.contains(x) implies
                #[trigger] now.contains(x) by {
                lemma_pushed(before, key, x);
            }
            lemma_pushed(before, key, key);
        }
    }
}

/// Every QML module that a source uses is used, under its alias, and each once.
pub proof fn law_qml_uses_are_kept(ms: Seq<Module>, m: int, i: int, n: int)
    requires
        0 <= m < n <= ms.len(),
        0 <= i < ms[m].items@.len(),
        ms[m].items@[i] is UseQml,
    ensures
        qml_uses(ms, n).no_duplicates(),
        ({
            let u = ms[m].items@[i]->UseQml_0;
            qml_uses(ms, n).contains(
                (
                    u.module_uri@,
                    match u.alias {
                        Some(a) => Some(a.name@),
                        None => None,
                    },
                ),
            )
        }),
    decreases n,
{
    lemma_uses_once(ms, n - 1);
    lemma_item_uses(qml_uses(ms, n - 1), ms[n - 1].items@, ms[n - 1].items@.len() as int);
    if m < n - 1 {
        law_qml_uses_are_kept(ms, m, i, n - 1);
    } else {
        let u = ms[m].items@[i]->UseQml_0;
        assert(ms[m].items@[i] matches Item::UseQml(u));
    }
}

proof fn lemma_uses_once(ms: Seq<Module>, n: int)
    requires
        0 <= n <= ms.len(),
    ensures
        qml_uses(ms, n).no_duplicates(),
    decreases n,
{
    if n > 0 {
        lemma_uses_once(ms, n - 1);
        lemma_item_uses(qml_uses(ms, n - 1), ms[n - 1].items@, ms[n - 1].items@.len() as int);
    }
}

} // verus!
