//! The C++ types that bindings may name, and what they are called.

use crate::dict::Dict;
use crate::qpi_types::{ClassKind, ClassSpec};
use crate::typesystem::{pair, pair_texts, texts, TypeSystem};
use vstd::prelude::*;
use vstd::string::*;

verus! {

/// Part 1 of the table.
pub open spec fn table_part_1() -> Seq<(Seq<char>, Seq<char>)> {
    seq![
        ("bool"@, "Bool"@),
        ("int"@, "Int"@),
        ("qint32"@, "Int"@),
        ("qint64"@, "Int"@),
        ("long"@, "Int"@),
        ("long long"@, "Int"@),
        ("qsizetype"@, "Int"@),
        ("float"@, "Float"@),
        ("double"@, "Float"@),
        ("qreal"@, "Float"@),
        ("QString"@, "String"@),
        ("QAnyStringView"@, "String"@),
        ("QStringView"@, "String"@),
        ("QLatin1StringView"@, "String"@),
        ("QStringList"@, "QStringList"@),
        ("QRgb"@, "Int"@),
        ("QPoint"@, "QPoint"@),
        ("QPointF"@, "QPointF"@),
        ("QSize"@, "QSize"@),
        ("QSizeF"@, "QSizeF"@),
    ]
}

fn push_part_1(v: Vec<(String, String)>) -> (r: Vec<(String, String)>)
    ensures
        pair_texts(r@) == pair_texts(v@) + table_part_1(),
{
    let ghost start = v@;
    let mut v = v;
    v.push(pair("bool", "Bool"));
    v.push(pair("int", "Int"));
    v.push(pair("qint32", "Int"));
    v.push(pair("qint64", "Int"));
    v.push(pair("long", "Int"));
    v.push(pair("long long", "Int"));
    v.push(pair("qsizetype", "Int"));
    v.push(pair("float", "Float"));
    v.push(pair("double", "Float"));
    v.push(pair("qreal", "Float"));
    v.push(pair("QString", "String"));
    v.push(pair("QAnyStringView", "String"));
    v.push(pair("QStringView", "String"));
    v.push(pair("QLatin1StringView", "String"));
    v.push(pair("QStringList", "QStringList"));
    v.push(pair("QRgb", "Int"));
    v.push(pair("QPoint", "QPoint"));
    v.push(pair("QPointF", "QPointF"));
    v.push(pair("QSize", "QSize"));
    v.push(pair("QSizeF", "QSizeF"));
    assert(pair_texts(v@) =~= pair_texts(start) + table_part_1());
    v
}

/// Part 2 of the table.
pub open spec fn table_part_2() -> Seq<(Seq<char>, Seq<char>)> {
    seq![
        ("QRect"@, "QRect"@),
        ("QRectF"@, "QRectF"@),
        ("QLine"@, "QLine"@),
        ("QLineF"@, "QLineF"@),
        ("QMargins"@, "QMargins"@),
        ("QMarginsF"@, "QMarginsF"@),
        ("QColor"@, "QColor"@),
        ("QUrl"@, "QUrl"@),
        ("QDate"@, "QDate"@),
        ("QDateTime"@, "QDateTime"@),
        ("QPixmap"@, "QPixmap"@),
        ("QImage"@, "QImage"@),
        ("QIcon"@, "QIcon"@),
        ("QFont"@, "QFont"@),
        ("QPen"@, "QPen"@),
        ("QBrush"@, "QBrush"@),
        ("QPainter"@, "QPainter"@),
        ("QIODevice"@, "QIODevice"@),
        ("QByteArray"@, "QByteArray"@),
        ("QVariant"@, "QVariant"@),
    ]
}

fn push_part_2(v: Vec<(String, String)>) -> (r: Vec<(String, String)>)
    ensures
        pair_texts(r@) == pair_texts(v@) + table_part_2(),
{
    let ghost start = v@;
    let mut v = v;
    v.push(pair("QRect", "QRect"));
    v.push(pair("QRectF", "QRectF"));
    v.push(pair("QLine", "QLine"));
    v.push(pair("QLineF", "QLineF"));
    v.push(pair("QMargins", "QMargins"));
    v.push(pair("QMarginsF", "QMarginsF"));
    v.push(pair("QColor", "QColor"));
    v.push(pair("QUrl", "QUrl"));
    v.push(pair("QDate", "QDate"));
    v.push(pair("QDateTime", "QDateTime"));
    v.push(pair("QPixmap", "QPixmap"));
    v.push(pair("QImage", "QImage"));
    v.push(pair("QIcon", "QIcon"));
    v.push(pair("QFont", "QFont"));
    v.push(pair("QPen", "QPen"));
    v.push(pair("QBrush", "QBrush"));
    v.push(pair("QPainter", "QPainter"));
    v.push(pair("QIODevice", "QIODevice"));
    v.push(pair("QByteArray", "QByteArray"));
    v.push(pair("QVariant", "QVariant"));
    assert(pair_texts(v@) =~= pair_texts(start) + table_part_2());
    v
}

/// Part 3 of the table.
pub open spec fn table_part_3() -> Seq<(Seq<char>, Seq<char>)> {
    seq![
        ("QObject"@, "QObject"@),
        ("QWidget"@, "QWidget"@),
        ("QLayout"@, "QLayout"@),
        ("Qt::AlignmentFlag"@, "AlignmentFlag"@),
        ("AlignmentFlag"@, "AlignmentFlag"@),
        ("Qt::Orientation"@, "Orientation"@),
        ("Orientation"@, "Orientation"@),
        ("Qt::TimerType"@, "TimerType"@),
        ("TimerType"@, "TimerType"@),
        ("Qt::CheckState"@, "CheckState"@),
        ("CheckState"@, "CheckState"@),
        ("Qt::TextFormat"@, "TextFormat"@),
        ("TextFormat"@, "TextFormat"@),
        ("Qt::CursorShape"@, "CursorShape"@),
        ("CursorShape"@, "CursorShape"@),
        ("Qt::FocusPolicy"@, "FocusPolicy"@),
        ("FocusPolicy"@, "FocusPolicy"@),
        ("Qt::ScrollBarPolicy"@, "ScrollBarPolicy"@),
        ("ScrollBarPolicy"@, "ScrollBarPolicy"@),
        ("Qt::MouseButton"@, "MouseButton"@),
    ]
}

fn push_part_3(v: Vec<(String, String)>) -> (r: Vec<(String, String)>)
    ensures
        pair_texts(r@) == pair_texts(v@) + table_part_3(),
{
    let ghost start = v@;
    let mut v = v;
    v.push(pair("QObject", "QObject"));
    v.push(pair("QWidget", "QWidget"));
    v.push(pair("QLayout", "QLayout"));
    v.push(pair("Qt::AlignmentFlag", "AlignmentFlag"));
    v.push(pair("AlignmentFlag", "AlignmentFlag"));
    v.push(pair("Qt::Orientation", "Orientation"));
    v.push(pair("Orientation", "Orientation"));
    v.push(pair("Qt::TimerType", "TimerType"));
    v.push(pair("TimerType", "TimerType"));
    v.push(pair("Qt::CheckState", "CheckState"));
    v.push(pair("CheckState", "CheckState"));
    v.push(pair("Qt::TextFormat", "TextFormat"));
    v.push(pair("TextFormat", "TextFormat"));
    v.push(pair("Qt::CursorShape", "CursorShape"));
    v.push(pair("CursorShape", "CursorShape"));
    v.push(pair("Qt::FocusPolicy", "FocusPolicy"));
    v.push(pair("FocusPolicy", "FocusPolicy"));
    v.push(pair("Qt::ScrollBarPolicy", "ScrollBarPolicy"));
    v.push(pair("ScrollBarPolicy", "ScrollBarPolicy"));
    v.push(pair("Qt::MouseButton", "MouseButton"));
    assert(pair_texts(v@) =~= pair_texts(start) + table_part_3());
    v
}

/// Part 4 of the table.
pub open spec fn table_part_4() -> Seq<(Seq<char>, Seq<char>)> {
    seq![
        ("MouseButton"@, "MouseButton"@),
        ("Qt::Key"@, "Key"@),
        ("Key"@, "Key"@),
        ("Qt::WindowState"@, "WindowState"@),
        ("WindowState"@, "WindowState"@),
        ("QSlider::TickPosition"@, "TickPosition"@),
        ("TickPosition"@, "TickPosition"@),
        ("QLineEdit::EchoMode"@, "EchoMode"@),
        ("EchoMode"@, "EchoMode"@),
        ("QFrame::Shape"@, "Shape"@),
        ("Shape"@, "Shape"@),
        ("QFrame::Shadow"@, "Shadow"@),
        ("Shadow"@, "Shadow"@),
        ("QAbstractItemView::SelectionMode"@, "SelectionMode"@),
        ("SelectionMode"@, "SelectionMode"@),
        ("QAbstractItemView::SelectionBehavior"@, "SelectionBehavior"@),
        ("SelectionBehavior"@, "SelectionBehavior"@),
        ("QAbstractItemView::ScrollMode"@, "ScrollMode"@),
        ("ScrollMode"@, "ScrollMode"@),
        ("QLayoutItem"@, "QLayoutItem"@),
    ]
}

fn push_part_4(v: Vec<(String, String)>) -> (r: Vec<(String, String)>)
    ensures
        pair_texts(r@) == pair_texts(v@) + table_part_4(),
{
    let ghost start = v@;
    let mut v = v;
    v.push(pair("MouseButton", "MouseButton"));
    v.push(pair("Qt::Key", "Key"));
    v.push(pair("Key", "Key"));
    v.push(pair("Qt::WindowState", "WindowState"));
    v.push(pair("WindowState", "WindowState"));
    v.push(pair("QSlider::TickPosition", "TickPosition"));
    v.push(pair("TickPosition", "TickPosition"));
    v.push(pair("QLineEdit::EchoMode", "EchoMode"));
    v.push(pair("EchoMode", "EchoMode"));
    v.push(pair("QFrame::Shape", "Shape"));
    v.push(pair("Shape", "Shape"));
    v.push(pair("QFrame::Shadow", "Shadow"));
    v.push(pair("Shadow", "Shadow"));
    v.push(pair("QAbstractItemView::SelectionMode", "SelectionMode"));
    v.push(pair("SelectionMode", "SelectionMode"));
    v.push(pair("QAbstractItemView::SelectionBehavior", "SelectionBehavior"));
    v.push(pair("SelectionBehavior", "SelectionBehavior"));
    v.push(pair("QAbstractItemView::ScrollMode", "ScrollMode"));
    v.push(pair("ScrollMode", "ScrollMode"));
    v.push(pair("QLayoutItem", "QLayoutItem"));
    assert(pair_texts(v@) =~= pair_texts(start) + table_part_4());
    v
}

/// Part 5 of the table.
pub open spec fn table_part_5() -> Seq<(Seq<char>, Seq<char>)> {
    seq![
        ("QAbstractItemModel"@, "QAbstractItemModel"@),
        ("QAbstractButton"@, "QAbstractButton"@),
        ("QAbstractSlider"@, "QAbstractSlider"@),
        ("QFrame"@, "QFrame"@),
        ("QAbstractScrollArea"@, "QAbstractScrollArea"@),
        ("QAbstractItemView"@, "QAbstractItemView"@),
        ("QPushButton"@, "QPushButton"@),
        ("QLabel"@, "QLabel"@),
        ("QLineEdit"@, "QLineEdit"@),
        ("QHeaderView"@, "QHeaderView"@),
    ]
}

fn push_part_5(v: Vec<(String, String)>) -> (r: Vec<(String, String)>)
    ensures
        pair_texts(r@) == pair_texts(v@) + table_part_5(),
{
    let ghost start = v@;
    let mut v = v;
    v.push(pair("QAbstractItemModel", "QAbstractItemModel"));
    v.push(pair("QAbstractButton", "QAbstractButton"));
    v.push(pair("QAbstractSlider", "QAbstractSlider"));
    v.push(pair("QFrame", "QFrame"));
    v.push(pair("QAbstractScrollArea", "QAbstractScrollArea"));
    v.push(pair("QAbstractItemView", "QAbstractItemView"));
    v.push(pair("QPushButton", "QPushButton"));
    v.push(pair("QLabel", "QLabel"));
    v.push(pair("QLineEdit", "QLineEdit"));
    v.push(pair("QHeaderView", "QHeaderView"));
    assert(pair_texts(v@) =~= pair_texts(start) + table_part_5());
    v
}

/// The C++ types that are known without being asked for.
pub open spec fn builtin_types() -> Seq<(Seq<char>, Seq<char>)> {
    Seq::empty() + table_part_1() + table_part_2() + table_part_3() + table_part_4() + table_part_5()
}

fn builtin_type_list() -> (r: Vec<(String, String)>)
    ensures
        pair_texts(r@) == builtin_types(),
{
    let v: Vec<(String, String)> = Vec::new();
    assert(pair_texts(v@) =~= Seq::empty());
    let v = push_part_1(v);
    let v = push_part_2(v);
    let v = push_part_3(v);
    let v = push_part_4(v);
    let v = push_part_5(v);
    v
}

/// The types of the first `n` entries of a list.
pub open spec fn listed(v: Seq<(Seq<char>, Seq<char>)>, n: int) -> Map<Seq<char>, Seq<char>>
    decreases n,
{
    if n <= 0 {
        Map::empty()
    } else {
        listed(v, n - 1).insert(v[n - 1].0, v[n - 1].1)
    }
}

/// `m` with `k`, where it has none.
pub open spec fn or_insert(
    m: Map<Seq<char>, Seq<char>>,
    k: Seq<char>,
    v: Seq<char>,
) -> Map<Seq<char>, Seq<char>> {
    if m.contains_key(k) {
        m
    } else {
        m.insert(k, v)
    }
}

/// `m` with a class under its own name, and an enum or a flags type under its
/// name with the namespace too.
pub open spec fn with_class(m: Map<Seq<char>, Seq<char>>, c: ClassSpec) -> Map<
    Seq<char>,
    Seq<char>,
> {
    let named = or_insert(m, c.name@, c.name@);
    match c.kind {
        ClassKind::Enum | ClassKind::Flags => match c.cpp_namespace {
            Some(ns) => or_insert(named, ns@ + "::"@ + c.name@, c.name@),
            None => named,
        },
        _ => named,
    }
}

/// `m` with the first `n` classes.
pub open spec fn with_classes(
    m: Map<Seq<char>, Seq<char>>,
    classes: Seq<ClassSpec>,
    n: int,
) -> Map<Seq<char>, Seq<char>>
    decreases n,
{
    if n <= 0 {
        m
    } else {
        with_class(with_classes(m, classes, n - 1), classes[n - 1])
    }
}

/// The types that are known: the table, then the classes that are bound, then
/// what the type system maps.
pub open spec fn known_types(
    classes: Seq<ClassSpec>,
    mapped: Map<Seq<char>, Seq<char>>,
) -> Map<Seq<char>, Seq<char>> {
    with_classes(
        listed(builtin_types(), builtin_types().len() as int),
        classes,
        classes.len() as int,
    ).union_prefer_right(mapped)
}

/// `k` is the key of one of the first `n` entries.
pub open spec fn among(items: Seq<(String, String)>, n: int, k: Seq<char>) -> bool {
    exists|x: int| 0 <= x < n && #[trigger] items[x].0@ == k
}

fn list_types(v: Vec<(String, String)>) -> (r: Dict<String>)
    ensures
        texts(r@) == listed(pair_texts(v@), v@.len() as int),
{
    let ghost vs = v@;
    let mut m: Dict<String> = Dict::new();
    assert(texts(m@) =~= Map::empty());
    for p in it: v
        invariant
            it.seq() == vs,
            texts(m@) == listed(pair_texts(vs), it.index() as int),
    {
        let ghost i = it.index() as int;
        let ghost m0 = m@;
        assert(pair_texts(vs)[i] == (p.0@, p.1@));
        let ghost kt = p.0@;
        let ghost vt = p.1@;
        let (k, v) = p;
        m = m.insert(k, v);
        assert(texts(m@) =~= texts(m0).insert(kt, vt));
    }
    m
}

fn insert_missing(m: Dict<String>, k: String, v: &String) -> (r: Dict<String>)
    ensures
        texts(r@) == or_insert(texts(m@), k@, v@),
{
    if m.contains_key(k.as_str()) {
        m
    } else {
        let ghost m0 = m@;
        let ghost kt = k@;
        let r = m.insert(k, v.clone());
        assert(texts(r@) =~= texts(m0).insert(kt, v@));
        r
    }
}

/// The types that are known to a type system.
pub fn build_type_map(ts: &TypeSystem) -> (r: Dict<String>)
    ensures
        texts(r@) == known_types(ts.classes@, texts(ts.type_map@)),
{
    let table = builtin_type_list();
    assert(pair_texts(table@).len() == table@.len());
    let mut m = list_types(table);
    let ghost start = texts(m@);
    let mut i: usize = 0;
    while i < ts.classes.len()
        invariant
            i <= ts.classes@.len(),
            texts(m@) == with_classes(start, ts.classes@, i as int),
        decreases ts.classes@.len() - i,
    {
        let c = &ts.classes[i];
        m = insert_missing(m, c.name.clone(), &c.name);
        match c.kind {
            ClassKind::Enum | ClassKind::Flags => match &c.cpp_namespace {
                Some(ns) => {
                    m = insert_missing(m, ns.clone().concat("::").concat(c.name.as_str()), &c.name);
                },
                None => {},
            },
            _ => {},
        }
        i += 1;
    }
    let ghost base = texts(m@);
    let n: usize = ts.type_map.len();
    let ghost items = ts.type_map.items();
    let mut j: usize = 0;
    while j < n
        invariant
            j <= n,
            n == items.len(),
            items == ts.type_map.items(),
            forall|k: Seq<char>|
                #[trigger] texts(m@).contains_key(k) <==> base.contains_key(k) || among(
                    items,
                    j as int,
                    k,
                ),
            forall|k: Seq<char>| #[trigger]
                texts(m@).contains_key(k) ==> texts(m@)[k] == if among(items, j as int, k) {
                    texts(ts.type_map@)[k]
                } else {
                    base[k]
                },
        decreases n - j,
    {
        let k = ts.type_map.key_at(j).clone();
        let v = ts.type_map.value_at(j).clone();
        let ghost kt = k@;
        let ghost vt = v@;
        let ghost m0 = m@;
        m = m.insert(k, v);
        proof {
            assert(texts(m@) =~= texts(m0).insert(kt, vt));
            assert(texts(ts.type_map@)[kt] == vt);
            assert(items[j as int].0@ == kt);
            assert forall|x: Seq<char>| #[trigger] among(items, j + 1, x) <==> (x == kt || among(
                items,
                j as int,
                x,
            )) by {
                if among(items, j as int, x) {
                    let y = choose|y: int| 0 <= y < j && #[trigger] items[y].0@ == x;
                    assert(items[y].0@ == x);
                }
            }
        }
        j += 1;
    }
    proof {
        let want = base.union_prefer_right(texts(ts.type_map@));
        assert forall|k: Seq<char>| #[trigger] among(items, n as int, k) <==> texts(
            ts.type_map@,
        ).contains_key(k) by {
            assert(texts(ts.type_map@).contains_key(k) <==> ts.type_map@.contains_key(k));
        }
        assert forall|k: Seq<char>| #[trigger] texts(m@).contains_key(k) == want.contains_key(k) by {
            assert(among(items, n as int, k) <==> texts(ts.type_map@).contains_key(k));
        }
        assert forall|k: Seq<char>| #[trigger] texts(m@).contains_key(k) implies texts(m@)[k]
            == want[k] by {
            assert(among(items, n as int, k) <==> texts(ts.type_map@).contains_key(k));
        }
        assert(texts(m@) =~= want);
    }
    m
}

// ---- laws -------------------------------------------------------------------------

/// What a type system maps wins over the table and over the classes.
pub proof fn law_mapped_types_win(
    classes: Seq<ClassSpec>,
    mapped: Map<Seq<char>, Seq<char>>,
    k: Seq<char>,
)
    requires
        mapped.contains_key(k),
    ensures
        known_types(classes, mapped).contains_key(k),
        known_types(classes, mapped)[k] == mapped[k],
{
}

proof fn lemma_with_classes_keeps(
    m: Map<Seq<char>, Seq<char>>,
    classes: Seq<ClassSpec>,
    n: int,
    k: Seq<char>,
)
    requires
        m.contains_key(k),
    ensures
        with_classes(m, classes, n).contains_key(k),
        with_classes(m, classes, n)[k] == m[k],
    decreases n,
{
    if n > 0 {
        lemma_with_classes_keeps(m, classes, n - 1, k);
    }
}

proof fn lemma_with_classes_has(
    m: Map<Seq<char>, Seq<char>>,
    classes: Seq<ClassSpec>,
    n: int,
    i: int,
)
    requires
        0 <= i < n <= classes.len(),
    ensures
        with_classes(m, classes, n).contains_key(classes[i].name@),
    decreases n,
{
    if i < n - 1 {
        lemma_with_classes_has(m, classes, n - 1, i);
    }
}

/// Every class that is bound can be named by the others.
pub proof fn law_bound_classes_are_known(
    classes: Seq<ClassSpec>,
    mapped: Map<Seq<char>, Seq<char>>,
    i: int,
)
    requires
        0 <= i < classes.len(),
    ensures
        known_types(classes, mapped).contains_key(classes[i].name@),
{
    lemma_with_classes_has(
        listed(builtin_types(), builtin_types().len() as int),
        classes,
        classes.len() as int,
        i,
    );
}

/// A type of the table keeps its meaning, unless the type system maps it.
pub proof fn law_table_types_are_kept(
    classes: Seq<ClassSpec>,
    mapped: Map<Seq<char>, Seq<char>>,
    k: Seq<char>,
)
    requires
        listed(builtin_types(), builtin_types().len() as int).contains_key(k),
        !mapped.contains_key(k),
    ensures
        known_types(classes, mapped).contains_key(k),
        known_types(classes, mapped)[k] == listed(
            builtin_types(),
            builtin_types().len() as int,
        )[k],
{
    lemma_with_classes_keeps(
        listed(builtin_types(), builtin_types().len() as int),
        classes,
        classes.len() as int,
        k,
    );
}

} // verus!
