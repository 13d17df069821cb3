//! What holds of paths, of the types that are known without being asked for, of
//! installed libraries and of new projects.

use crate::entry::{
    entry_of, is_skipped, is_source_name, source_positions, sources_in, sources_of, DirFile,
    EntryDir, FileNode,
};
use crate::install::{
    clone_name, git_parts, is_action_for, law_revision_round_trip, trim_end_text, LibraryAction,
};
use crate::manifest::CuteLibSpec;
use crate::naming::{capitalized, prefixed_name};
use crate::probe::{
    base_files, first_found, first_version, qt_prefix, quoted, sets_version, version_files,
    version_in, Probe, QmakeAnswer,
};
use crate::scaffold::{
    entry_template, init_error, picked_kind, project_dirs, project_files, Templates,
};
use crate::sources::path_join;
use crate::text::{
    after_last, ends_with, index_of, is_ascii_digit, lines, matches_at, replace, rfind_from,
    starts_with, trim, trim_end_char,
};
use crate::type_table::{
    builtin_types, table_part_1, table_part_2, table_part_3, table_part_4, table_part_5,
};
use crate::watch::is_watched;
use vstd::prelude::*;

verus! {

// ---- known types -------------------------------------------------------------------

pub open spec fn names_of_int() -> Seq<Seq<char>> {
    seq!["int"@, "qint32"@, "qint64"@, "long"@, "long long"@, "qsizetype"@, "QRgb"@]
}

pub open spec fn names_of_float() -> Seq<Seq<char>> {
    seq!["float"@, "double"@, "qreal"@]
}

pub open spec fn names_of_bool() -> Seq<Seq<char>> {
    seq!["bool"@]
}

pub open spec fn names_of_string() -> Seq<Seq<char>> {
    seq!["QString"@, "QAnyStringView"@, "QStringView"@, "QLatin1StringView"@]
}

/// A name in its scope.
pub open spec fn scoped(scope: Seq<char>, name: Seq<char>) -> Seq<char> {
    scope + "::"@ + name
}

/// The C++ type `key` is bound to the type that it stands for: numbers, truth
/// values and texts to those of the language, and any other type to the type of
/// its name, without its scope.
pub open spec fn is_natural(key: Seq<char>, bound: Seq<char>) -> bool {
    ||| names_of_int().contains(key) && bound == "Int"@
    ||| names_of_float().contains(key) && bound == "Float"@
    ||| names_of_bool().contains(key) && bound == "Bool"@
    ||| names_of_string().contains(key) && bound == "String"@
    ||| key == bound
    ||| exists|scope: Seq<char>| key == #[trigger] scoped(scope, bound)
}

#[verifier::rlimit(30)]
proof fn lemma_part_1(i: int)
    requires
        0 <= i < table_part_1().len(),
    ensures
        is_natural(table_part_1()[i].0, table_part_1()[i].1),
{
    let v = table_part_1();
    assert(i == 0 || i == 1 || i == 2 || i == 3 || i == 4 || i == 5 || i == 6 || i == 7 || i == 8
        || i == 9 || i == 10 || i == 11 || i == 12 || i == 13 || i == 14 || i == 15 || i == 16
        || i == 17 || i == 18 || i == 19);
    if i == 0 {
        assert(v[0] == ("bool"@, "Bool"@));
        assert(names_of_bool()[0] == "bool"@);
    }
    if i == 1 {
        assert(v[1] == ("int"@, "Int"@));
        assert(names_of_int()[0] == "int"@);
    }
    if i == 2 {
        assert(v[2] == ("qint32"@, "Int"@));
        assert(names_of_int()[1] == "qint32"@);
    }
    if i == 3 {
        assert(v[3] == ("qint64"@, "Int"@));
        assert(names_of_int()[2] == "qint64"@);
    }
    if i == 4 {
        assert(v[4] == ("long"@, "Int"@));
        assert(names_of_int()[3] == "long"@);
    }
    if i == 5 {
        assert(v[5] == ("long long"@, "Int"@));
        assert(names_of_int()[4] == "long long"@);
    }
    if i == 6 {
        assert(v[6] == ("qsizetype"@, "Int"@));
        assert(names_of_int()[5] == "qsizetype"@);
    }
    if i == 7 {
        assert(v[7] == ("float"@, "Float"@));
        assert(names_of_float()[0] == "float"@);
    }
    if i == 8 {
        assert(v[8] == ("double"@, "Float"@));
        assert(names_of_float()[1] == "double"@);
    }
    if i == 9 {
        assert(v[9] == ("qreal"@, "Float"@));
        assert(names_of_float()[2] == "qreal"@);
    }
    if i == 10 {
        assert(v[10] == ("QString"@, "String"@));
        assert(names_of_string()[0] == "QString"@);
    }
    if i == 11 {
        assert(v[11] == ("QAnyStringView"@, "String"@));
        assert(names_of_string()[1] == "QAnyStringView"@);
    }
    if i == 12 {
        assert(v[12] == ("QStringView"@, "String"@));
        assert(names_of_string()[2] == "QStringView"@);
    }
    if i == 13 {
        assert(v[13] == ("QLatin1StringView"@, "String"@));
        assert(names_of_string()[3] == "QLatin1StringView"@);
    }
    if i == 14 {
        assert(v[14] == ("QStringList"@, "QStringList"@));
    }
    if i == 15 {
        assert(v[15] == ("QRgb"@, "Int"@));
        assert(names_of_int()[6] == "QRgb"@);
    }
    if i == 16 {
        assert(v[16] == ("QPoint"@, "QPoint"@));
    }
    if i == 17 {
        assert(v[17] == ("QPointF"@, "QPointF"@));
    }
    if i == 18 {
        assert(v[18] == ("QSize"@, "QSize"@));
    }
    if i == 19 {
        assert(v[19] == ("QSizeF"@, "QSizeF"@));
    }
}

#[verifier::rlimit(30)]
proof fn lemma_part_2(i: int)
    requires
        0 <= i < table_part_2().len(),
    ensures
        is_natural(table_part_2()[i].0, table_part_2()[i].1),
{
    let v = table_part_2();
    assert(i == 0 || i == 1 || i == 2 || i == 3 || i == 4 || i == 5 || i == 6 || i == 7 || i == 8
        || i == 9 || i == 10 || i == 11 || i == 12 || i == 13 || i == 14 || i == 15 || i == 16
        || i == 17 || i == 18 || i == 19);
    if i == 0 {
        assert(v[0] == ("QRect"@, "QRect"@));
    }
    if i == 1 {
        assert(v[1] == ("QRectF"@, "QRectF"@));
    }
    if i == 2 {
        assert(v[2] == ("QLine"@, "QLine"@));
    }
    if i == 3 {
        assert(v[3] == ("QLineF"@, "QLineF"@));
    }
    if i == 4 {
        assert(v[4] == ("QMargins"@, "QMargins"@));
    }
    if i == 5 {
        assert(v[5] == ("QMarginsF"@, "QMarginsF"@));
    }
    if i == 6 {
        assert(v[6] == ("QColor"@, "QColor"@));
    }
    if i == 7 {
        assert(v[7] == ("QUrl"@, "QUrl"@));
    }
    if i == 8 {
        assert(v[8] == ("QDate"@, "QDate"@));
    }
    if i == 9 {
        assert(v[9] == ("QDateTime"@, "QDateTime"@));
    }
    if i == 10 {
        assert(v[10] == ("QPixmap"@, "QPixmap"@));
    }
    if i == 11 {
        assert(v[11] == ("QImage"@, "QImage"@));
    }
    if i == 12 {
        assert(v[12] == ("QIcon"@, "QIcon"@));
    }
    if i == 13 {
        assert(v[13] == ("QFont"@, "QFont"@));
    }
    if i == 14 {
        assert(v[14] == ("QPen"@, "QPen"@));
    }
    if i == 15 {
        assert(v[15] == ("QBrush"@, "QBrush"@));
    }
    if i == 16 {
        assert(v[16] == ("QPainter"@, "QPainter"@));
    }
    if i == 17 {
        assert(v[17] == ("QIODevice"@, "QIODevice"@));
    }
    if i == 18 {
        assert(v[18] == ("QByteArray"@, "QByteArray"@));
    }
    if i == 19 {
        assert(v[19] == ("QVariant"@, "QVariant"@));
    }
}

#[verifier::rlimit(30)]
proof fn lemma_part_3(i: int)
    requires
        0 <= i < table_part_3().len(),
    ensures
        is_natural(table_part_3()[i].0, table_part_3()[i].1),
{
    let v = table_part_3();
    assert(i == 0 || i == 1 || i == 2 || i == 3 || i == 4 || i == 5 || i == 6 || i == 7 || i == 8
        || i == 9 || i == 10 || i == 11 || i == 12 || i == 13 || i == 14 || i == 15 || i == 16
        || i == 17 || i == 18 || i == 19);
    if i == 0 {
        assert(v[0] == ("QObject"@, "QObject"@));
    }
    if i == 1 {
        assert(v[1] == ("QWidget"@, "QWidget"@));
    }
    if i == 2 {
        assert(v[2] == ("QLayout"@, "QLayout"@));
    }
    if i == 3 {
        assert(v[3] == ("Qt::AlignmentFlag"@, "AlignmentFlag"@));
        reveal_strlit("Qt::AlignmentFlag");
        reveal_strlit("Qt");
        reveal_strlit("AlignmentFlag");
        reveal_strlit("::");
        assert("Qt::AlignmentFlag"@ =~= scoped("Qt"@, "AlignmentFlag"@));
    }
    if i == 4 {
        assert(v[4] == ("AlignmentFlag"@, "AlignmentFlag"@));
    }
    if i == 5 {
        assert(v[5] == ("Qt::Orientation"@, "Orientation"@));
        reveal_strlit("Qt::Orientation");
        reveal_strlit("Qt");
        reveal_strlit("Orientation");
        reveal_strlit("::");
        assert("Qt::Orientation"@ =~= scoped("Qt"@, "Orientation"@));
    }
    if i == 6 {
        assert(v[6] == ("Orientation"@, "Orientation"@));
    }
    if i == 7 {
        assert(v[7] == ("Qt::TimerType"@, "TimerType"@));
        reveal_strlit("Qt::TimerType");
        reveal_strlit("Qt");
        reveal_strlit("TimerType");
        reveal_strlit("::");
        assert("Qt::TimerType"@ =~= scoped("Qt"@, "TimerType"@));
    }
    if i == 8 {
        assert(v[8] == ("TimerType"@, "TimerType"@));
    }
    if i == 9 {
        assert(v[9] == ("Qt::CheckState"@, "CheckState"@));
        reveal_strlit("Qt::CheckState");
        reveal_strlit("Qt");
        reveal_strlit("CheckState");
        reveal_strlit("::");
        assert("Qt::CheckState"@ =~= scoped("Qt"@, "CheckState"@));
    }
    if i == 10 {
        assert(v[10] == ("CheckState"@, "CheckState"@));
    }
    if i == 11 {
        assert(v[11] == ("Qt::TextFormat"@, "TextFormat"@));
        reveal_strlit("Qt::TextFormat");
        reveal_strlit("Qt");
        reveal_strlit("TextFormat");
        reveal_strlit("::");
        assert("Qt::TextFormat"@ =~= scoped("Qt"@, "TextFormat"@));
    }
    if i == 12 {
        assert(v[12] == ("TextFormat"@, "TextFormat"@));
    }
    if i == 13 {
        assert(v[13] == ("Qt::CursorShape"@, "CursorShape"@));
        reveal_strlit("Qt::CursorShape");
        reveal_strlit("Qt");
        reveal_strlit("CursorShape");
        reveal_strlit("::");
        assert("Qt::CursorShape"@ =~= scoped("Qt"@, "CursorShape"@));
    }
    if i == 14 {
        assert(v[14] == ("CursorShape"@, "CursorShape"@));
    }
    if i == 15 {
        assert(v[15] == ("Qt::FocusPolicy"@, "FocusPolicy"@));
        reveal_strlit("Qt::FocusPolicy");
        reveal_strlit("Qt");
        reveal_strlit("FocusPolicy");
        reveal_strlit("::");
        assert("Qt::FocusPolicy"@ =~= scoped("Qt"@, "FocusPolicy"@));
    }
    if i == 16 {
        assert(v[16] == ("FocusPolicy"@, "FocusPolicy"@));
    }
    if i == 17 {
        assert(v[17] == ("Qt::ScrollBarPolicy"@, "ScrollBarPolicy"@));
        reveal_strlit("Qt::ScrollBarPolicy");
        reveal_strlit("Qt");
        reveal_strlit("ScrollBarPolicy");
        reveal_strlit("::");
        assert("Qt::ScrollBarPolicy"@ =~= scoped("Qt"@, "ScrollBarPolicy"@));
    }
    if i == 18 {
        assert(v[18] == ("ScrollBarPolicy"@, "ScrollBarPolicy"@));
    }
    if i == 19 {
        assert(v[19] == ("Qt::MouseButton"@, "MouseButton"@));
        reveal_strlit("Qt::MouseButton");
        reveal_strlit("Qt");
        reveal_strlit("MouseButton");
        reveal_strlit("::");
        assert("Qt::MouseButton"@ =~= scoped("Qt"@, "MouseButton"@));
    }
}

#[verifier::rlimit(30)]
proof fn lemma_part_4(i: int)
    requires
        0 <= i < table_part_4().len(),
    ensures
        is_natural(table_part_4()[i].0, table_part_4()[i].1),
{
    let v = table_part_4();
    assert(i == 0 || i == 1 || i == 2 || i == 3 || i == 4 || i == 5 || i == 6 || i == 7 || i == 8
        || i == 9 || i == 10 || i == 11 || i == 12 || i == 13 || i == 14 || i == 15 || i == 16
        || i == 17 || i == 18 || i == 19);
    if i == 0 {
        assert(v[0] == ("MouseButton"@, "MouseButton"@));
    }
    if i == 1 {
        assert(v[1] == ("Qt::Key"@, "Key"@));
        reveal_strlit("Qt::Key");
        reveal_strlit("Qt");
        reveal_strlit("Key");
        reveal_strlit("::");
        assert("Qt::Key"@ =~= scoped("Qt"@, "Key"@));
    }
    if i == 2 {
        assert(v[2] == ("Key"@, "Key"@));
    }
    if i == 3 {
        assert(v[3] == ("Qt::WindowState"@, "WindowState"@));
        reveal_strlit("Qt::WindowState");
        reveal_strlit("Qt");
        reveal_strlit("WindowState");
        reveal_strlit("::");
        assert("Qt::WindowState"@ =~= scoped("Qt"@, "WindowState"@));
    }
    if i == 4 {
        assert(v[4] == ("WindowState"@, "WindowState"@));
    }
    if i == 5 {
        assert(v[5] == ("QSlider::TickPosition"@, "TickPosition"@));
        reveal_strlit("QSlider::TickPosition");
        reveal_strlit("QSlider");
        reveal_strlit("TickPosition");
        reveal_strlit("::");
        assert("QSlider::TickPosition"@ =~= scoped("QSlider"@, "TickPosition"@));
    }
    if i == 6 {
        assert(v[6] == ("TickPosition"@, "TickPosition"@));
    }
    if i == 7 {
        assert(v[7] == ("QLineEdit::EchoMode"@, "EchoMode"@));
        reveal_strlit("QLineEdit::EchoMode");
        reveal_strlit("QLineEdit");
        reveal_strlit("EchoMode");
        reveal_strlit("::");
        assert("QLineEdit::EchoMode"@ =~= scoped("QLineEdit"@, "EchoMode"@));
    }
    if i == 8 {
        assert(v[8] == ("EchoMode"@, "EchoMode"@));
    }
    if i == 9 {
        assert(v[9] == ("QFrame::Shape"@, "Shape"@));
        reveal_strlit("QFrame::Shape");
        reveal_strlit("QFrame");
        reveal_strlit("Shape");
        reveal_strlit("::");
        assert("QFrame::Shape"@ =~= scoped("QFrame"@, "Shape"@));
    }
    if i == 10 {
        assert(v[10] == ("Shape"@, "Shape"@));
    }
    if i == 11 {
        assert(v[11] == ("QFrame::Shadow"@, "Shadow"@));
        reveal_strlit("QFrame::Shadow");
        reveal_strlit("QFrame");
        reveal_strlit("Shadow");
        reveal_strlit("::");
        assert("QFrame::Shadow"@ =~= scoped("QFrame"@, "Shadow"@));
    }
    if i == 12 {
        assert(v[12] == ("Shadow"@, "Shadow"@));
    }
    if i == 13 {
        assert(v[13] == ("QAbstractItemView::SelectionMode"@, "SelectionMode"@));
        reveal_strlit("QAbstractItemView::SelectionMode");
        reveal_strlit("QAbstractItemView");
        reveal_strlit("SelectionMode");
        reveal_strlit("::");
        assert("QAbstractItemView::SelectionMode"@ =~= scoped("QAbstractItemView"@, "SelectionMode"@));
    }
    if i == 14 {
        assert(v[14] == ("SelectionMode"@, "SelectionMode"@));
    }
    if i == 15 {
        assert(v[15] == ("QAbstractItemView::SelectionBehavior"@, "SelectionBehavior"@));
        reveal_strlit("QAbstractItemView::SelectionBehavior");
        reveal_strlit("QAbstractItemView");
        reveal_strlit("SelectionBehavior");
        reveal_strlit("::");
        assert("QAbstractItemView::SelectionBehavior"@ =~= scoped("QAbstractItemView"@, "SelectionBehavior"@));
    }
    if i == 16 {
        assert(v[16] == ("SelectionBehavior"@, "SelectionBehavior"@));
    }
    if i == 17 {
        assert(v[17] == ("QAbstractItemView::ScrollMode"@, "ScrollMode"@));
        reveal_strlit("QAbstractItemView::ScrollMode");
        reveal_strlit("QAbstractItemView");
        reveal_strlit("ScrollMode");
        reveal_strlit("::");
        assert("QAbstractItemView::ScrollMode"@ =~= scoped("QAbstractItemView"@, "ScrollMode"@));
    }
    if i == 18 {
        assert(v[18] == ("ScrollMode"@, "ScrollMode"@));
    }
    if i == 19 {
        assert(v[19] == ("QLayoutItem"@, "QLayoutItem"@));
    }
}

#[verifier::rlimit(30)]
proof fn lemma_part_5(i: int)
    requires
        0 <= i < table_part_5().len(),
    ensures
        is_natural(table_part_5()[i].0, table_part_5()[i].1),
{
    let v = table_part_5();
    assert(i == 0 || i == 1 || i == 2 || i == 3 || i == 4 || i == 5 || i == 6 || i == 7 || i == 8 || i == 9);
    if i == 0 {
        assert(v[0] == ("QAbstractItemModel"@, "QAbstractItemModel"@));
    }
    if i == 1 {
        assert(v[1] == ("QAbstractButton"@, "QAbstractButton"@));
    }
    if i == 2 {
        assert(v[2] == ("QAbstractSlider"@, "QAbstractSlider"@));
    }
    if i == 3 {
        assert(v[3] == ("QFrame"@, "QFrame"@));
    }
    if i == 4 {
        assert(v[4] == ("QAbstractScrollArea"@, "QAbstractScrollArea"@));
    }
    if i == 5 {
        assert(v[5] == ("QAbstractItemView"@, "QAbstractItemView"@));
    }
    if i == 6 {
        assert(v[6] == ("QPushButton"@, "QPushButton"@));
    }
    if i == 7 {
        assert(v[7] == ("QLabel"@, "QLabel"@));
    }
    if i == 8 {
        assert(v[8] == ("QLineEdit"@, "QLineEdit"@));
    }
    if i == 9 {
        assert(v[9] == ("QHeaderView"@, "QHeaderView"@));
    }
}

/// Every C++ type that is known without being asked for is bound to the type
/// that it stands for.
pub proof fn law_known_types_are_natural(i: int)
    requires
        0 <= i < builtin_types().len(),
    ensures
        is_natural(builtin_types()[i].0, builtin_types()[i].1),
{
    let a = table_part_1();
    let b = table_part_2();
    let c = table_part_3();
    let d = table_part_4();
    let e = table_part_5();
    let v = builtin_types();
    let n1 = a.len() as int;
    let n2 = n1 + b.len();
    let n3 = n2 + c.len();
    let n4 = n3 + d.len();
    if i < n1 {
        assert(v[i] == a[i]);
        lemma_part_1(i);
    } else if i < n2 {
        assert(v[i] == b[i - n1]);
        lemma_part_2(i - n1);
    } else if i < n3 {
        assert(v[i] == c[i - n2]);
        lemma_part_3(i - n2);
    } else if i < n4 {
        assert(v[i] == d[i - n3]);
        lemma_part_4(i - n3);
    } else {
        assert(v[i] == e[i - n4]);
        lemma_part_5(i - n4);
    }
}

// ---- paths -------------------------------------------------------------------------

proof fn lemma_slash()
    ensures
        "/"@.len() == 1,
        "/"@[0] == '/',
{
    reveal_strlit("/");
}

/// A path in a directory stands behind the directory and one slash, whether the
/// directory is written with a slash at its end or without; a path from the root
/// and a path in no directory stay.
pub proof fn law_paths_are_joined_by_one_slash(base: Seq<char>, rel: Seq<char>)
    ensures
        base.len() > 0 && base.last() != '/' && (rel.len() == 0 || rel[0] != '/') ==> path_join(
            base,
            rel,
        ) == base + "/"@ + rel && path_join(base + "/"@, rel) == base + "/"@ + rel,
        rel.len() > 0 && rel[0] == '/' ==> path_join(base, rel) == rel,
        path_join(Seq::empty(), rel) == rel,
{
    lemma_slash();
    let slash = "/"@;
    if rel.len() > 0 {
        assert(rel.subrange(0, 1)[0] == rel[0]);
        if rel[0] == '/' {
            assert(rel.subrange(0, 1) =~= slash);
        }
    }
    if base.len() > 0 {
        let n = base.len() as int;
        assert(base.subrange(n - 1, n)[0] == base.last());
        let longer = base + slash;
        assert(longer.subrange(n, n + 1) =~= slash);
        assert(ends_with(longer, slash));
    }
}

/// A path in a directory of a directory is the path of both in turn.
pub proof fn law_paths_nest(a: Seq<char>, b: Seq<char>, c: Seq<char>)
    requires
        a.len() > 0 && a.last() != '/',
        b.len() > 0 && b[0] != '/' && b.last() != '/',
        c.len() > 0 && c[0] != '/',
    ensures
        path_join(path_join(a, b), c) == path_join(a, path_join(b, c)),
{
    lemma_slash();
    law_paths_are_joined_by_one_slash(a, b);
    law_paths_are_joined_by_one_slash(b, c);
    let ab = a + "/"@ + b;
    let bc = b + "/"@ + c;
    assert(ab.last() == b.last());
    assert(bc[0] == b[0]);
    law_paths_are_joined_by_one_slash(ab, c);
    law_paths_are_joined_by_one_slash(a, bc);
    assert(ab + "/"@ + c =~= a + "/"@ + bc);
}

// ---- libraries ---------------------------------------------------------------------

/// A library with a repository is installed from it, at the revision that the
/// manifest names; one with a path alone from the directory of that path; and
/// one with neither is left alone.
pub proof fn law_libraries_come_from_their_source(
    a: LibraryAction,
    s: CuteLibSpec,
    dir: Seq<char>,
)
    requires
        is_action_for(a, s, dir),
    ensures
        match (s.git, s.rev) {
            (Some(g), Some(r)) => !r@.contains(':') && !r@.contains('/') && !r@.contains('@') ==> (
            a matches LibraryAction::Git(t) && git_parts(t@) == (g@, Some(r@))),
            (Some(g), None) => a matches LibraryAction::Git(t) && t@ == g@,
            (None, _) => match s.path {
                Some(p) => a matches LibraryAction::Path(t) && t@ == path_join(dir, p@),
                None => a is Skip,
            },
        },
{
    if let (Some(g), Some(r)) = (s.git, s.rev) {
        if !r@.contains(':') && !r@.contains('/') && !r@.contains('@') {
            law_revision_round_trip(g@, r@);
        }
    }
}

proof fn lemma_last_slash(s: Seq<char>, at: int, i: int)
    requires
        0 <= at < s.len(),
        at <= i <= s.len(),
        s[at] == '/',
        forall|j: int| at < j < s.len() ==> s[j] != '/',
    ensures
        rfind_from(s, "/"@, i) == Some(at),
    decreases i,
{
    lemma_slash();
    if i > at {
        if matches_at(s, "/"@, i) {
            assert(s.subrange(i, i + 1)[0] == s[i]);
        }
        lemma_last_slash(s, at, i - 1);
    } else {
        assert(s.subrange(at, at + 1) =~= "/"@);
    }
}

/// A repository is cloned to a directory of its own name: the last part of its
/// address, without `.git` and without a slash at the end.
pub proof fn law_clones_bear_the_name(host: Seq<char>, name: Seq<char>)
    requires
        name.len() > 0,
        !name.contains('/'),
        !ends_with(name, ".git"@),
    ensures
        clone_name(host + "/"@ + name) == name,
        clone_name(host + "/"@ + name + ".git"@) == name,
        clone_name(host + "/"@ + name + "/"@) == name,
{
    lemma_slash();
    reveal_strlit(".git");
    let url = host + "/"@ + name;
    let n = host.len() as int;
    assert(url[n] == '/');
    assert forall|j: int| n < j < url.len() implies url[j] != '/' by {
        assert(url[j] == name[j - n - 1]);
    }
    assert(url.last() == name.last());
    assert(name.last() != '/');
    lemma_last_slash(url, n, url.len() as int);
    assert(trim_end_char(url, '/') == url);
    assert(url.subrange(n + 1, url.len() as int) =~= name);
    assert(after_last(url, "/"@) == name);
    assert(trim_end_text(name, ".git"@) == name);
    let g = url + ".git"@;
    assert(g[n] == '/');
    assert forall|j: int| n < j < g.len() implies g[j] != '/' by {
        if j < url.len() {
            assert(g[j] == url[j]);
        } else {
            assert(g[j] == ".git"@[j - url.len()]);
            assert(j - url.len() == 0 || j - url.len() == 1 || j - url.len() == 2 || j - url.len()
                == 3);
        }
    }
    assert(g.last() == ".git"@[3]);
    assert(trim_end_char(g, '/') == g);
    lemma_last_slash(g, n, g.len() as int);
    let named = name + ".git"@;
    assert(g.subrange(n + 1, g.len() as int) =~= named);
    assert(after_last(g, "/"@) == named);
    assert(named.subrange(named.len() - 4, named.len() as int) =~= ".git"@);
    assert(ends_with(named, ".git"@));
    assert(named.subrange(0, named.len() - 4) =~= name);
    assert(trim_end_text(named, ".git"@) == trim_end_text(name, ".git"@));
    let e = url + "/"@;
    assert(e.last() == '/');
    assert(e.drop_last() =~= url);
    assert(trim_end_char(e, '/') == trim_end_char(url, '/'));
}

// ---- new projects ------------------------------------------------------------------

proof fn lemma_replace_none(s: Seq<char>, from: Seq<char>, to: Seq<char>)
    requires
        from.len() > 0,
        !s.contains(from[0]),
    ensures
        replace(s, from, to) == s,
    decreases s.len(),
{
    if s.len() >= from.len() {
        assert(s[0] != from[0]) by {
            assert(s.contains(s[0]));
        }
        if starts_with(s, from) {
            assert(s.subrange(0, from.len() as int)[0] == s[0]);
        }
        let rest = s.drop_first();
        assert(!rest.contains(from[0])) by {
            if rest.contains(from[0]) {
                let k = choose|k: int| 0 <= k < rest.len() && rest[k] == from[0];
                assert(s[k + 1] == from[0]);
            }
        }
        lemma_replace_none(rest, from, to);
        assert(seq![s[0]] + rest =~= s);
    }
}

proof fn lemma_replace_one(a: Seq<char>, b: Seq<char>, from: Seq<char>, to: Seq<char>)
    requires
        from.len() > 0,
        !a.contains(from[0]),
    ensures
        replace(a + from + b, from, to) == a + to + replace(b, from, to),
    decreases a.len(),
{
    let s = a + from + b;
    if a.len() == 0 {
        assert(s.subrange(0, from.len() as int) =~= from);
        assert(s.subrange(from.len() as int, s.len() as int) =~= b);
        assert(a + to + replace(b, from, to) =~= to + replace(b, from, to));
    } else {
        assert(s[0] == a[0]);
        assert(a.contains(a[0]));
        if starts_with(s, from) {
            assert(s.subrange(0, from.len() as int)[0] == s[0]);
        }
        let rest = a.drop_first();
        assert(!rest.contains(from[0])) by {
            if rest.contains(from[0]) {
                let k = choose|k: int| 0 <= k < rest.len() && rest[k] == from[0];
                assert(a[k + 1] == from[0]);
            }
        }
        assert(s.drop_first() =~= rest + from + b);
        lemma_replace_one(rest, b, from, to);
        assert(seq![a[0]] + (rest + to + replace(b, from, to)) =~= a + to + replace(b, from, to));
    }
}

/// A new project has its entry file, its manifest and its list of ignored files
/// in a directory of its name. The name stands in the entry file and in that
/// list in place of each mark of it, one after the other; the manifest is taken
/// as it is.
pub proof fn law_projects_bear_their_name(
    name: Seq<char>,
    t: Templates,
    vscode: bool,
    before: Seq<char>,
    after: Seq<char>,
)
    requires
        t.entry@ == before + "{NAME}"@ + after,
        !before.contains('{'),
        !after.contains('{'),
    ensures
        ({
            let f = project_files(name, t, vscode);
            &&& f[0] == (path_join(name, name + ".cute"@), before + name + after)
            &&& f[1] == (path_join(name, "cute.toml"@), t.manifest@)
            &&& f[2].0 == path_join(name, ".gitignore"@)
            &&& f.len() == if vscode {
                5int
            } else {
                3int
            }
            &&& project_dirs(name, vscode)[0] == name
        }),
{
    reveal_strlit("{NAME}");
    let from = "{NAME}"@;
    lemma_replace_one(before, after, from, name);
    lemma_replace_none(after, from, name);
}

/// The settings of the editor are written where they are asked for, in a
/// directory of their own.
pub proof fn law_editor_settings_are_asked_for(name: Seq<char>, t: Templates)
    ensures
        ({
            let f = project_files(name, t, true);
            let dir = path_join(name, ".vscode"@);
            &&& f[3] == (path_join(dir, "settings.json"@), t.vscode_settings@)
            &&& f[4] == (path_join(dir, "extensions.json"@), t.vscode_extensions@)
            &&& project_dirs(name, true) == seq![name, dir]
            &&& project_dirs(name, false) == seq![name]
            &&& project_files(name, t, false) =~= f.take(3)
        }),
{
}

/// A flag alone picks the kind of its name, no flag a QtQuick program, and each
/// kind has a template of its name.
pub proof fn law_flags_pick_their_template()
    ensures
        entry_template(picked_kind(false, false, false, false, false)) == "qml.cute.tmpl"@,
        entry_template(picked_kind(true, false, false, false, false)) == "widget.cute.tmpl"@,
        entry_template(picked_kind(false, true, false, false, false)) == "server.cute.tmpl"@,
        entry_template(picked_kind(false, false, true, false, false)) == "cli.cute.tmpl"@,
        entry_template(picked_kind(false, false, false, true, false)) == "kirigami.cute.tmpl"@,
        entry_template(picked_kind(false, false, false, false, true)) == "gpu.cute.tmpl"@,
{
}

/// A project can be made under a name of letters, digits and underscores that
/// does not start with a digit, where nothing of that name is there.
pub proof fn law_projects_that_can_be_made(name: Seq<char>, exists_already: bool)
    ensures
        init_error(name, exists_already) is None <==> {
            &&& !exists_already
            &&& name.len() > 0
            &&& !is_ascii_digit(name[0])
            &&& forall|i: int|
                0 <= i < name.len() ==> ('a' <= #[trigger] name[i] <= 'z' || 'A' <= name[i] <= 'Z'
                    || '0' <= name[i] <= '9' || name[i] == '_')
        },
{
    if name.len() > 0 && !is_ascii_digit(name[0]) && !exists_already && (forall|i: int|
        0 <= i < name.len() ==> ('a' <= #[trigger] name[i] <= 'z' || 'A' <= name[i] <= 'Z' || '0'
            <= name[i] <= '9' || name[i] == '_')) {
        assert(crate::scaffold::starts_name(name[0]));
    }
}

// ---- what is found on the host -----------------------------------------------------

/// The first place that has it is taken.
pub proof fn law_first_place_is_taken(v: Seq<Probe>, i: int, k: int)
    requires
        0 <= i <= k <= v.len(),
        forall|j: int| i <= j < k ==> !(#[trigger] v[j]).found,
        k < v.len() ==> v[k].found,
    ensures
        k < v.len() ==> first_found(v, i) == Some(v[k].path@),
        k == v.len() ==> first_found(v, i) is None,
    decreases k - i,
{
    if i < k {
        assert(!v[i].found);
        law_first_place_is_taken(v, i + 1, k);
    }
}

/// What the environment says of Qt comes before what `qmake` says, and that
/// before the usual places; a variable that is empty says nothing.
pub proof fn law_qt_is_where_it_is_said_to_be(
    qt_dir: Option<String>,
    cmake_prefix_path: Option<String>,
    answers: Seq<QmakeAnswer>,
    places: Seq<Probe>,
)
    ensures
        ({
            let r = qt_prefix(qt_dir, cmake_prefix_path, answers, places);
            let dir = qt_dir is Some && qt_dir->0@.len() > 0;
            let cmake = cmake_prefix_path is Some && cmake_prefix_path->0@.len() > 0;
            &&& dir ==> r == Some(qt_dir->0@)
            &&& !dir && cmake ==> r == Some(cmake_prefix_path->0@)
            &&& !dir && !cmake && answers.len() > 0 && answers[0].success && answers[0].exists
                && trim(answers[0].stdout@).len() > 0 ==> r == Some(trim(answers[0].stdout@))
            &&& !dir && !cmake && answers.len() == 0 ==> r == first_found(places, 0)
        }),
{
}

proof fn lemma_index(s: Seq<char>, c: char, i: int)
    requires
        0 <= i < s.len(),
        s[i] == c,
        forall|j: int| 0 <= j < i ==> s[j] != c,
    ensures
        index_of(s, c) == i,
{
    crate::text::lemma_index_of_unique(s, c, i);
}

/// What stands between the first two quotes is read as it stands.
pub proof fn law_quoted_text_is_read(a: Seq<char>, v: Seq<char>, b: Seq<char>)
    requires
        !a.contains('"'),
        !v.contains('"'),
    ensures
        quoted(a + seq!['"'] + v + seq!['"'] + b) == Some(v),
{
    let s = a + seq!['"'] + v + seq!['"'] + b;
    let n = a.len() as int;
    assert forall|j: int| 0 <= j < n implies s[j] != '"' by {
        assert(s[j] == a[j]);
        assert(a.contains(a[j]));
    }
    lemma_index(s, '"', n);
    let rest = s.subrange(n + 1, s.len() as int);
    assert(rest =~= v + seq!['"'] + b);
    assert forall|j: int| 0 <= j < v.len() implies rest[j] != '"' by {
        assert(rest[j] == v[j]);
        assert(v.contains(v[j]));
    }
    lemma_index(rest, '"', v.len() as int);
    assert(rest.subrange(0, v.len() as int) =~= v);
}

/// The first line that sets the version decides, and lines before it do not
/// matter.
pub proof fn law_first_version_line_decides(ls: Seq<Seq<char>>, i: int, k: int)
    requires
        0 <= i <= k < ls.len(),
        forall|j: int| i <= j < k ==> !sets_version(#[trigger] ls[j]),
        sets_version(ls[k]),
    ensures
        version_in(ls, i) == version_in(seq![ls[k]], 0),
    decreases k - i,
{
    if i < k {
        assert(!sets_version(ls[i]));
        law_first_version_line_decides(ls, i + 1, k);
    } else {
        assert(seq![ls[k]][0] == ls[k]);
    }
}

/// The first file that tells a version decides.
pub proof fn law_first_told_version_decides(texts: Seq<Option<String>>, i: int, k: int)
    requires
        0 <= i <= k < texts.len(),
        forall|j: int|
            i <= j < k ==> (#[trigger] texts[j] matches Some(t) ==> version_in(lines(t@), 0) is None),
        texts[k] matches Some(t) && version_in(lines(t@), 0) is Some,
    ensures
        first_version(texts, i) == version_in(lines(texts[k]->0@), 0),
    decreases k - i,
{
    if i < k {
        assert(texts[i] matches Some(t) ==> version_in(lines(t@), 0) is None);
        law_first_told_version_decides(texts, i + 1, k);
    }
}

/// The version of Qt is looked for in both library directories, below the
/// prefix and below the places of Homebrew's formulas in it.
pub proof fn law_version_files(prefix: Seq<char>)
    ensures
        version_files(prefix).len() == 12,
        forall|i: int|
            0 <= i < 4 ==> #[trigger] version_files(prefix)[i] == base_files(
                path_join(prefix, "opt/qt"@),
            )[i],
        forall|i: int|
            4 <= i < 8 ==> #[trigger] version_files(prefix)[i] == base_files(
                path_join(prefix, "opt/qt6"@),
            )[i - 4],
        forall|i: int|
            8 <= i < 12 ==> #[trigger] version_files(prefix)[i] == base_files(prefix)[i - 8],
        base_files(prefix).contains(
            path_join(prefix, "lib"@ + "/cmake/Qt6Core/Qt6CoreConfigVersion.cmake"@),
        ),
        base_files(prefix).contains(
            path_join(prefix, "lib64"@ + "/cmake/Qt6Core/Qt6CoreConfigVersion.cmake"@),
        ),
        base_files(prefix).contains(
            path_join(prefix, "lib"@ + "/cmake/Qt6Core/Qt6CoreConfigVersionImpl.cmake"@),
        ),
        base_files(prefix).contains(
            path_join(prefix, "lib64"@ + "/cmake/Qt6Core/Qt6CoreConfigVersionImpl.cmake"@),
        ),
{
    reveal_strlit("lib");
    reveal_strlit("lib64");
    reveal_strlit("/cmake/Qt6Core/Qt6CoreConfigVersion.cmake");
    reveal_strlit("/cmake/Qt6Core/Qt6CoreConfigVersionImpl.cmake");
    reveal_strlit("lib/cmake/Qt6Core/Qt6CoreConfigVersion.cmake");
    reveal_strlit("lib/cmake/Qt6Core/Qt6CoreConfigVersionImpl.cmake");
    reveal_strlit("lib64/cmake/Qt6Core/Qt6CoreConfigVersion.cmake");
    reveal_strlit("lib64/cmake/Qt6Core/Qt6CoreConfigVersionImpl.cmake");
    let f = base_files(prefix);
    assert("lib/cmake/Qt6Core/Qt6CoreConfigVersion.cmake"@ =~= "lib"@
        + "/cmake/Qt6Core/Qt6CoreConfigVersion.cmake"@);
    assert("lib/cmake/Qt6Core/Qt6CoreConfigVersionImpl.cmake"@ =~= "lib"@
        + "/cmake/Qt6Core/Qt6CoreConfigVersionImpl.cmake"@);
    assert("lib64/cmake/Qt6Core/Qt6CoreConfigVersion.cmake"@ =~= "lib64"@
        + "/cmake/Qt6Core/Qt6CoreConfigVersion.cmake"@);
    assert("lib64/cmake/Qt6Core/Qt6CoreConfigVersionImpl.cmake"@ =~= "lib64"@
        + "/cmake/Qt6Core/Qt6CoreConfigVersionImpl.cmake"@);
    assert(f[0] == path_join(prefix, "lib/cmake/Qt6Core/Qt6CoreConfigVersionImpl.cmake"@));
    assert(f[1] == path_join(prefix, "lib/cmake/Qt6Core/Qt6CoreConfigVersion.cmake"@));
    assert(f[2] == path_join(prefix, "lib64/cmake/Qt6Core/Qt6CoreConfigVersionImpl.cmake"@));
    assert(f[3] == path_join(prefix, "lib64/cmake/Qt6Core/Qt6CoreConfigVersion.cmake"@));
}

// ---- sources -----------------------------------------------------------------------

/// Without a file that is named after the directory, `main.cute` is the entry;
/// without that the only source is; and among several there is none.
pub proof fn law_entries_of_directories(d: EntryDir)
    requires
        !(d.base is Some && d.has_named),
    ensures
        d.has_main ==> entry_of(d) == Some(path_join(d.path@, "main.cute"@)),
        !d.has_main ==> (entry_of(d) is Some <==> source_positions(
            d.files@,
            d.files@.len() as int,
        ).len() == 1),
{
}

/// The sources among files are the regular files whose names end in `.cute`.
pub proof fn law_sources_are_regular_files(v: Seq<DirFile>, n: int, k: int)
    requires
        0 <= n <= v.len(),
    ensures
        source_positions(v, n).contains(k) <==> 0 <= k < n && v[k].is_file && is_source_name(
            v[k].name@,
        ),
    decreases n,
{
    if n > 0 {
        law_sources_are_regular_files(v, n - 1, k);
        let before = source_positions(v, n - 1);
        let now = source_positions(v, n);
        if before.contains(k) {
            let j = choose|j: int| 0 <= j < before.len() && before[j] == k;
            assert(now[j] == k);
        }
        if v[n - 1].is_file && is_source_name(v[n - 1].name@) {
            assert(now[before.len() as int] == n - 1);
            if now.contains(k) && k != n - 1 {
                let j = choose|j: int| 0 <= j < now.len() && now[j] == k;
                assert(before[j] == k);
            }
        }
    }
}

/// A source below a directory that is not passed over is a source of the
/// directory.
pub proof fn law_sources_below_are_found(
    f: FileNode,
    also: Seq<Seq<char>>,
    i: int,
    p: Seq<char>,
)
    requires
        f.is_dir,
        f.name is Some ==> !is_skipped(f.name->0@, also),
        0 <= i < f.children@.len(),
        sources_in(f.children@[i], also).contains(p),
    ensures
        sources_in(f, also).contains(p),
{
    lemma_sources_of(f.children, also, i, f.children@.len(), p);
}

proof fn lemma_sources_of(v: Vec<FileNode>, also: Seq<Seq<char>>, i: int, n: nat, p: Seq<char>)
    requires
        0 <= i < n <= v@.len(),
        sources_in(v@[i], also).contains(p),
    ensures
        sources_of(v, also, n).contains(p),
    decreases n,
{
    let a = sources_of(v, also, (n - 1) as nat);
    let b = sources_in(v@[n - 1], also);
    if i == n - 1 {
        crate::project_laws::lemma_right(a, b, p);
    } else {
        lemma_sources_of(v, also, i, (n - 1) as nat, p);
        crate::project_laws::lemma_left(a, b, p);
    }
}

/// A file of this kind is a source, and no other file is.
pub proof fn law_source_files(f: FileNode, also: Seq<Seq<char>>)
    requires
        !f.is_dir,
        f.name is Some,
        !is_skipped(f.name->0@, also),
    ensures
        is_source_name(f.name->0@) ==> sources_in(f, also) == seq![f.path@],
        !is_source_name(f.name->0@) ==> sources_in(f, also).len() == 0,
{
}

// ---- names -------------------------------------------------------------------------

/// Of a name that starts with a lower-case letter the first letter alone
/// changes, into the letter thirty-two places before it; a name that starts with
/// an upper-case letter, a digit or an underscore stays.
pub proof fn law_first_letters_are_capital(s: Seq<char>)
    requires
        s.len() > 0,
        (s[0] as u32) < 128,
    ensures
        capitalized(s).len() == s.len(),
        capitalized(s).skip(1) == s.skip(1),
        'a' <= s[0] <= 'z' ==> capitalized(s)[0] as u32 == s[0] as u32 - 32,
        !('a' <= s[0] <= 'z') ==> capitalized(s) == s,
{
    let t = capitalized(s);
    assert(t.skip(1) =~= s.skip(1));
    if !('a' <= s[0] <= 'z') {
        assert(t =~= s);
    }
}

/// A derived name is the prefix and the capitalized name.
pub proof fn law_derived_names(prefix: Seq<char>, name: Seq<char>)
    requires
        name.len() > 0,
        (name[0] as u32) < 128,
    ensures
        prefixed_name(prefix, name).take(prefix.len() as int) == prefix,
        prefixed_name(prefix, name).skip(prefix.len() as int + 1) == name.skip(1),
{
    law_first_letters_are_capital(name);
    let t = prefixed_name(prefix, name);
    assert(t.take(prefix.len() as int) =~= prefix);
    assert(t.skip(prefix.len() as int + 1) =~= capitalized(name).skip(1));
}

/// Sources and the manifest are watched, and no other file is.
pub proof fn law_watched_files(name: Seq<char>)
    ensures
        is_watched(name + ".cute"@),
        is_watched("cute.toml"@),
        is_watched(name) ==> ends_with(name, ".cute"@) || name == "cute.toml"@,
{
    let s = name + ".cute"@;
    let n = name.len() as int;
    assert(s.subrange(n, s.len() as int) =~= ".cute"@);
    assert(ends_with(s, ".cute"@));
}

} // verus!
