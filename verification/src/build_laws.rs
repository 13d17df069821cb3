//! Laws of build modes, of CMake projects and of build plans.

use crate::cmake::{
    bundle_block, cmake_text, cuteui_line, manifest_links, manifest_packages, pch_block_text,
    pch_list, project_text, qrc_line, version_words, with_extras, EmitResult,
};
use crate::manifest::Manifest;
use crate::modes::{
    are_extras_of, min_version, mode_components, mode_libs, mode_of, mode_pch, needed_components,
    with_manifest_components, BuildExtras, BuildMode,
};
use crate::packages::components_of;
use crate::plan::{
    planned_cmake, planned_files, qml_name, qrc_lines, qrc_text, view_names, with_views, HostFacts,
};
use crate::text::{
    added, all_added, contains, is_space, join, lemma_word_len_unique, matches_at, views, word_len,
    words, wrapped,
};
use vstd::prelude::*;
use vstd::string::*;

verus! {

// ---- pieces of text ---------------------------------------------------------------

pub(crate) proof fn lemma_contains_add(a: Seq<char>, b: Seq<char>, p: Seq<char>)
    requires
        contains(a, p) || contains(b, p),
    ensures
        contains(a + b, p),
{
    let t = a + b;
    if contains(a, p) {
        let k = choose|k: int| matches_at(a, p, k);
        assert(t.subrange(k, k + p.len()) =~= a.subrange(k, k + p.len()));
        assert(matches_at(t, p, k));
    } else {
        let k = choose|k: int| matches_at(b, p, k);
        let n = a.len() as int;
        assert(t.subrange(n + k, n + k + p.len()) =~= b.subrange(k, k + p.len()));
        assert(matches_at(t, p, n + k));
    }
}

pub(crate) proof fn lemma_contains_self(p: Seq<char>)
    ensures
        contains(p, p),
{
    assert(p.subrange(0, p.len() as int) =~= p);
    assert(matches_at(p, p, 0));
}

pub(crate) proof fn lemma_contains_join(parts: Seq<Seq<char>>, sep: Seq<char>, i: int)
    requires
        0 <= i < parts.len(),
    ensures
        contains(join(parts, sep), parts[i]),
    decreases parts.len(),
{
    if parts.len() == 1 {
        lemma_contains_self(parts[0]);
    } else {
        let rest = join(parts.drop_last(), sep);
        if i == parts.len() - 1 {
            lemma_contains_self(parts[i]);
        } else {
            lemma_contains_join(parts.drop_last(), sep, i);
            assert(parts.drop_last()[i] == parts[i]);
            lemma_contains_add(rest, sep, parts[i]);
        }
        lemma_contains_add(rest + sep, parts.last(), parts[i]);
    }
}

// ---- words --------------------------------------------------------------------------

/// The text is one word.
pub open spec fn is_word(w: Seq<char>) -> bool {
    w.len() > 0 && forall|i: int| 0 <= i < w.len() ==> !is_space(#[trigger] w[i])
}

proof fn lemma_words_one(w: Seq<char>)
    requires
        is_word(w),
    ensures
        words(w) == seq![w],
{
    lemma_word_len_unique(w, w.len() as int);
    assert(w.subrange(0, w.len() as int) =~= w);
    assert(w.subrange(w.len() as int, w.len() as int) =~= Seq::empty());
    assert(words(Seq::<char>::empty()) =~= Seq::empty());
    assert(words(w) =~= seq![w]);
}

proof fn lemma_words_more(w: Seq<char>, rest: Seq<char>)
    requires
        is_word(w),
    ensures
        words(w + " "@ + rest) == seq![w] + words(rest),
{
    reveal_strlit(" ");
    let s = w + " "@ + rest;
    assert(s[w.len() as int] == ' ');
    assert forall|i: int| 0 <= i < w.len() implies !is_space(#[trigger] s[i]) by {
        assert(s[i] == w[i]);
    }
    lemma_word_len_unique(s, w.len() as int);
    assert(s.subrange(0, w.len() as int) =~= w);
    let t = s.subrange(w.len() as int, s.len() as int);
    assert(t[0] == ' ');
    assert(word_len(t) == 0);
    assert(t.drop_first() =~= rest);
    assert(words(t) == words(rest));
}

proof fn lemma_split_core_gui_qml_quick_quickcontrols2()
    ensures
        words("Core Gui Qml Quick QuickControls2"@) == seq!["Core"@, "Gui"@, "Qml"@, "Quick"@, "QuickControls2"@],
{
    assert(is_word("Core"@)) by {
        reveal_strlit("Core");
        assert forall|i: int| 0 <= i < 4 implies !is_space(#[trigger] "Core"@[i]) by {
            assert(i == 0 || i == 1 || i == 2 || i == 3);
        }
    }
    assert(is_word("Gui"@)) by {
        reveal_strlit("Gui");
        assert forall|i: int| 0 <= i < 3 implies !is_space(#[trigger] "Gui"@[i]) by {
            assert(i == 0 || i == 1 || i == 2);
        }
    }
    assert(is_word("Qml"@)) by {
        reveal_strlit("Qml");
        assert forall|i: int| 0 <= i < 3 implies !is_space(#[trigger] "Qml"@[i]) by {
            assert(i == 0 || i == 1 || i == 2);
        }
    }
    assert(is_word("Quick"@)) by {
        reveal_strlit("Quick");
        assert forall|i: int| 0 <= i < 5 implies !is_space(#[trigger] "Quick"@[i]) by {
            assert(i == 0 || i == 1 || i == 2 || i == 3 || i == 4);
        }
    }
    assert(is_word("QuickControls2"@)) by {
        reveal_strlit("QuickControls2");
        assert forall|i: int| 0 <= i < 14 implies !is_space(#[trigger] "QuickControls2"@[i]) by {
            assert(i == 0 || i == 1 || i == 2 || i == 3 || i == 4 || i == 5 || i == 6 || i == 7
                || i == 8 || i == 9 || i == 10 || i == 11 || i == 12 || i == 13);
        }
    }
    lemma_words_one("QuickControls2"@);
    lemma_words_more("Quick"@, "QuickControls2"@);
    assert("Quick QuickControls2"@ =~= "Quick"@ + " "@ + "QuickControls2"@) by {
        reveal_strlit("Quick QuickControls2");
        reveal_strlit("Quick");
        reveal_strlit("QuickControls2");
        reveal_strlit(" ");
    }
    lemma_words_more("Qml"@, "Quick QuickControls2"@);
    assert("Qml Quick QuickControls2"@ =~= "Qml"@ + " "@ + "Quick QuickControls2"@) by {
        reveal_strlit("Qml Quick QuickControls2");
        reveal_strlit("Qml");
        reveal_strlit("Quick QuickControls2");
        reveal_strlit(" ");
    }
    lemma_words_more("Gui"@, "Qml Quick QuickControls2"@);
    assert("Gui Qml Quick QuickControls2"@ =~= "Gui"@ + " "@ + "Qml Quick QuickControls2"@) by {
        reveal_strlit("Gui Qml Quick QuickControls2");
        reveal_strlit("Gui");
        reveal_strlit("Qml Quick QuickControls2");
        reveal_strlit(" ");
    }
    lemma_words_more("Core"@, "Gui Qml Quick QuickControls2"@);
    assert("Core Gui Qml Quick QuickControls2"@ =~= "Core"@ + " "@ + "Gui Qml Quick QuickControls2"@) by {
        reveal_strlit("Core Gui Qml Quick QuickControls2");
        reveal_strlit("Core");
        reveal_strlit("Gui Qml Quick QuickControls2");
        reveal_strlit(" ");
    }
    assert(words("Core Gui Qml Quick QuickControls2"@) =~= seq!["Core"@, "Gui"@, "Qml"@, "Quick"@, "QuickControls2"@]);
}

proof fn lemma_split_qt6_core_qt6_gui_qt6_qml_qt6_quick_qt6_quickcont()
    ensures
        words("Qt6::Core Qt6::Gui Qt6::Qml Qt6::Quick Qt6::QuickControls2"@) == seq!["Qt6::Core"@, "Qt6::Gui"@, "Qt6::Qml"@, "Qt6::Quick"@, "Qt6::QuickControls2"@],
{
    assert(is_word("Qt6::Core"@)) by {
        reveal_strlit("Qt6::Core");
        assert forall|i: int| 0 <= i < 9 implies !is_space(#[trigger] "Qt6::Core"@[i]) by {
            assert(i == 0 || i == 1 || i == 2 || i == 3 || i == 4 || i == 5 || i == 6 || i == 7 || i == 8);
        }
    }
    assert(is_word("Qt6::Gui"@)) by {
        reveal_strlit("Qt6::Gui");
        assert forall|i: int| 0 <= i < 8 implies !is_space(#[trigger] "Qt6::Gui"@[i]) by {
            assert(i == 0 || i == 1 || i == 2 || i == 3 || i == 4 || i == 5 || i == 6 || i == 7);
        }
    }
    assert(is_word("Qt6::Qml"@)) by {
        reveal_strlit("Qt6::Qml");
        assert forall|i: int| 0 <= i < 8 implies !is_space(#[trigger] "Qt6::Qml"@[i]) by {
            assert(i == 0 || i == 1 || i == 2 || i == 3 || i == 4 || i == 5 || i == 6 || i == 7);
        }
    }
    assert(is_word("Qt6::Quick"@)) by {
        reveal_strlit("Qt6::Quick");
        assert forall|i: int| 0 <= i < 10 implies !is_space(#[trigger] "Qt6::Quick"@[i]) by {
            assert(i == 0 || i == 1 || i == 2 || i == 3 || i == 4 || i == 5 || i == 6 || i == 7
                || i == 8 || i == 9);
        }
    }
    assert(is_word("Qt6::QuickControls2"@)) by {
        reveal_strlit("Qt6::QuickControls2");
        assert forall|i: int| 0 <= i < 19 implies !is_space(#[trigger] "Qt6::QuickControls2"@[i]) by {
            assert(i == 0 || i == 1 || i == 2 || i == 3 || i == 4 || i == 5 || i == 6 || i == 7
                || i == 8 || i == 9 || i == 10 || i == 11 || i == 12 || i == 13 || i == 14
                || i == 15 || i == 16 || i == 17 || i == 18);
        }
    }
    lemma_words_one("Qt6::QuickControls2"@);
    lemma_words_more("Qt6::Quick"@, "Qt6::QuickControls2"@);
    assert("Qt6::Quick Qt6::QuickControls2"@ =~= "Qt6::Quick"@ + " "@ + "Qt6::QuickControls2"@) by {
        reveal_strlit("Qt6::Quick Qt6::QuickControls2");
        reveal_strlit("Qt6::Quick");
        reveal_strlit("Qt6::QuickControls2");
        reveal_strlit(" ");
    }
    lemma_words_more("Qt6::Qml"@, "Qt6::Quick Qt6::QuickControls2"@);
    assert("Qt6::Qml Qt6::Quick Qt6::QuickControls2"@ =~= "Qt6::Qml"@ + " "@
        + "Qt6::Quick Qt6::QuickControls2"@) by {
        reveal_strlit("Qt6::Qml Qt6::Quick Qt6::QuickControls2");
        reveal_strlit("Qt6::Qml");
        reveal_strlit("Qt6::Quick Qt6::QuickControls2");
        reveal_strlit(" ");
    }
    lemma_words_more("Qt6::Gui"@, "Qt6::Qml Qt6::Quick Qt6::QuickControls2"@);
    assert("Qt6::Gui Qt6::Qml Qt6::Quick Qt6::QuickControls2"@ =~= "Qt6::Gui"@ + " "@
        + "Qt6::Qml Qt6::Quick Qt6::QuickControls2"@) by {
        reveal_strlit("Qt6::Gui Qt6::Qml Qt6::Quick Qt6::QuickControls2");
        reveal_strlit("Qt6::Gui");
        reveal_strlit("Qt6::Qml Qt6::Quick Qt6::QuickControls2");
        reveal_strlit(" ");
    }
    lemma_words_more("Qt6::Core"@, "Qt6::Gui Qt6::Qml Qt6::Quick Qt6::QuickControls2"@);
    assert("Qt6::Core Qt6::Gui Qt6::Qml Qt6::Quick Qt6::QuickControls2"@ =~= "Qt6::Core"@ + " "@
        + "Qt6::Gui Qt6::Qml Qt6::Quick Qt6::QuickControls2"@) by {
        reveal_strlit("Qt6::Core Qt6::Gui Qt6::Qml Qt6::Quick Qt6::QuickControls2");
        reveal_strlit("Qt6::Core");
        reveal_strlit("Qt6::Gui Qt6::Qml Qt6::Quick Qt6::QuickControls2");
        reveal_strlit(" ");
    }
    assert(words("Qt6::Core Qt6::Gui Qt6::Qml Qt6::Quick Qt6::QuickControls2"@) =~= seq!["Qt6::Core"@, "Qt6::Gui"@, "Qt6::Qml"@, "Qt6::Quick"@, "Qt6::QuickControls2"@]);
}

proof fn lemma_split_qtcore_qtgui_qtqml_qtquick()
    ensures
        words("<QtCore> <QtGui> <QtQml> <QtQuick>"@) == seq!["<QtCore>"@, "<QtGui>"@, "<QtQml>"@, "<QtQuick>"@],
{
    assert(is_word("<QtCore>"@)) by {
        reveal_strlit("<QtCore>");
        assert forall|i: int| 0 <= i < 8 implies !is_space(#[trigger] "<QtCore>"@[i]) by {
            assert(i == 0 || i == 1 || i == 2 || i == 3 || i == 4 || i == 5 || i == 6 || i == 7);
        }
    }
    assert(is_word("<QtGui>"@)) by {
        reveal_strlit("<QtGui>");
        assert forall|i: int| 0 <= i < 7 implies !is_space(#[trigger] "<QtGui>"@[i]) by {
            assert(i == 0 || i == 1 || i == 2 || i == 3 || i == 4 || i == 5 || i == 6);
        }
    }
    assert(is_word("<QtQml>"@)) by {
        reveal_strlit("<QtQml>");
        assert forall|i: int| 0 <= i < 7 implies !is_space(#[trigger] "<QtQml>"@[i]) by {
            assert(i == 0 || i == 1 || i == 2 || i == 3 || i == 4 || i == 5 || i == 6);
        }
    }
    assert(is_word("<QtQuick>"@)) by {
        reveal_strlit("<QtQuick>");
        assert forall|i: int| 0 <= i < 9 implies !is_space(#[trigger] "<QtQuick>"@[i]) by {
            assert(i == 0 || i == 1 || i == 2 || i == 3 || i == 4 || i == 5 || i == 6 || i == 7 || i == 8);
        }
    }
    lemma_words_one("<QtQuick>"@);
    lemma_words_more("<QtQml>"@, "<QtQuick>"@);
    assert("<QtQml> <QtQuick>"@ =~= "<QtQml>"@ + " "@ + "<QtQuick>"@) by {
        reveal_strlit("<QtQml> <QtQuick>");
        reveal_strlit("<QtQml>");
        reveal_strlit("<QtQuick>");
        reveal_strlit(" ");
    }
    lemma_words_more("<QtGui>"@, "<QtQml> <QtQuick>"@);
    assert("<QtGui> <QtQml> <QtQuick>"@ =~= "<QtGui>"@ + " "@ + "<QtQml> <QtQuick>"@) by {
        reveal_strlit("<QtGui> <QtQml> <QtQuick>");
        reveal_strlit("<QtGui>");
        reveal_strlit("<QtQml> <QtQuick>");
        reveal_strlit(" ");
    }
    lemma_words_more("<QtCore>"@, "<QtGui> <QtQml> <QtQuick>"@);
    assert("<QtCore> <QtGui> <QtQml> <QtQuick>"@ =~= "<QtCore>"@ + " "@ + "<QtGui> <QtQml> <QtQuick>"@) by {
        reveal_strlit("<QtCore> <QtGui> <QtQml> <QtQuick>");
        reveal_strlit("<QtCore>");
        reveal_strlit("<QtGui> <QtQml> <QtQuick>");
        reveal_strlit(" ");
    }
    assert(words("<QtCore> <QtGui> <QtQml> <QtQuick>"@) =~= seq!["<QtCore>"@, "<QtGui>"@, "<QtQml>"@, "<QtQuick>"@]);
}

proof fn lemma_split_core_gui_widgets()
    ensures
        words("Core Gui Widgets"@) == seq!["Core"@, "Gui"@, "Widgets"@],
{
    assert(is_word("Core"@)) by {
        reveal_strlit("Core");
        assert forall|i: int| 0 <= i < 4 implies !is_space(#[trigger] "Core"@[i]) by {
            assert(i == 0 || i == 1 || i == 2 || i == 3);
        }
    }
    assert(is_word("Gui"@)) by {
        reveal_strlit("Gui");
        assert forall|i: int| 0 <= i < 3 implies !is_space(#[trigger] "Gui"@[i]) by {
            assert(i == 0 || i == 1 || i == 2);
        }
    }
    assert(is_word("Widgets"@)) by {
        reveal_strlit("Widgets");
        assert forall|i: int| 0 <= i < 7 implies !is_space(#[trigger] "Widgets"@[i]) by {
            assert(i == 0 || i == 1 || i == 2 || i == 3 || i == 4 || i == 5 || i == 6);
        }
    }
    lemma_words_one("Widgets"@);
    lemma_words_more("Gui"@, "Widgets"@);
    assert("Gui Widgets"@ =~= "Gui"@ + " "@ + "Widgets"@) by {
        reveal_strlit("Gui Widgets");
        reveal_strlit("Gui");
        reveal_strlit("Widgets");
        reveal_strlit(" ");
    }
    lemma_words_more("Core"@, "Gui Widgets"@);
    assert("Core Gui Widgets"@ =~= "Core"@ + " "@ + "Gui Widgets"@) by {
        reveal_strlit("Core Gui Widgets");
        reveal_strlit("Core");
        reveal_strlit("Gui Widgets");
        reveal_strlit(" ");
    }
    assert(words("Core Gui Widgets"@) =~= seq!["Core"@, "Gui"@, "Widgets"@]);
}

proof fn lemma_split_qt6_core_qt6_gui_qt6_widgets()
    ensures
        words("Qt6::Core Qt6::Gui Qt6::Widgets"@) == seq!["Qt6::Core"@, "Qt6::Gui"@, "Qt6::Widgets"@],
{
    assert(is_word("Qt6::Core"@)) by {
        reveal_strlit("Qt6::Core");
        assert forall|i: int| 0 <= i < 9 implies !is_space(#[trigger] "Qt6::Core"@[i]) by {
            assert(i == 0 || i == 1 || i == 2 || i == 3 || i == 4 || i == 5 || i == 6 || i == 7 || i == 8);
        }
    }
    assert(is_word("Qt6::Gui"@)) by {
        reveal_strlit("Qt6::Gui");
        assert forall|i: int| 0 <= i < 8 implies !is_space(#[trigger] "Qt6::Gui"@[i]) by {
            assert(i == 0 || i == 1 || i == 2 || i == 3 || i == 4 || i == 5 || i == 6 || i == 7);
        }
    }
    assert(is_word("Qt6::Widgets"@)) by {
        reveal_strlit("Qt6::Widgets");
        assert forall|i: int| 0 <= i < 12 implies !is_space(#[trigger] "Qt6::Widgets"@[i]) by {
            assert(i == 0 || i == 1 || i == 2 || i == 3 || i == 4 || i == 5 || i == 6 || i == 7
                || i == 8 || i == 9 || i == 10 || i == 11);
        }
    }
    lemma_words_one("Qt6::Widgets"@);
    lemma_words_more("Qt6::Gui"@, "Qt6::Widgets"@);
    assert("Qt6::Gui Qt6::Widgets"@ =~= "Qt6::Gui"@ + " "@ + "Qt6::Widgets"@) by {
        reveal_strlit("Qt6::Gui Qt6::Widgets");
        reveal_strlit("Qt6::Gui");
        reveal_strlit("Qt6::Widgets");
        reveal_strlit(" ");
    }
    lemma_words_more("Qt6::Core"@, "Qt6::Gui Qt6::Widgets"@);
    assert("Qt6::Core Qt6::Gui Qt6::Widgets"@ =~= "Qt6::Core"@ + " "@ + "Qt6::Gui Qt6::Widgets"@) by {
        reveal_strlit("Qt6::Core Qt6::Gui Qt6::Widgets");
        reveal_strlit("Qt6::Core");
        reveal_strlit("Qt6::Gui Qt6::Widgets");
        reveal_strlit(" ");
    }
    assert(words("Qt6::Core Qt6::Gui Qt6::Widgets"@) =~= seq!["Qt6::Core"@, "Qt6::Gui"@, "Qt6::Widgets"@]);
}

proof fn lemma_split_qtcore_qtgui_qtwidgets()
    ensures
        words("<QtCore> <QtGui> <QtWidgets>"@) == seq!["<QtCore>"@, "<QtGui>"@, "<QtWidgets>"@],
{
    assert(is_word("<QtCore>"@)) by {
        reveal_strlit("<QtCore>");
        assert forall|i: int| 0 <= i < 8 implies !is_space(#[trigger] "<QtCore>"@[i]) by {
            assert(i == 0 || i == 1 || i == 2 || i == 3 || i == 4 || i == 5 || i == 6 || i == 7);
        }
    }
    assert(is_word("<QtGui>"@)) by {
        reveal_strlit("<QtGui>");
        assert forall|i: int| 0 <= i < 7 implies !is_space(#[trigger] "<QtGui>"@[i]) by {
            assert(i == 0 || i == 1 || i == 2 || i == 3 || i == 4 || i == 5 || i == 6);
        }
    }
    assert(is_word("<QtWidgets>"@)) by {
        reveal_strlit("<QtWidgets>");
        assert forall|i: int| 0 <= i < 11 implies !is_space(#[trigger] "<QtWidgets>"@[i]) by {
            assert(i == 0 || i == 1 || i == 2 || i == 3 || i == 4 || i == 5 || i == 6 || i == 7
                || i == 8 || i == 9 || i == 10);
        }
    }
    lemma_words_one("<QtWidgets>"@);
    lemma_words_more("<QtGui>"@, "<QtWidgets>"@);
    assert("<QtGui> <QtWidgets>"@ =~= "<QtGui>"@ + " "@ + "<QtWidgets>"@) by {
        reveal_strlit("<QtGui> <QtWidgets>");
        reveal_strlit("<QtGui>");
        reveal_strlit("<QtWidgets>");
        reveal_strlit(" ");
    }
    lemma_words_more("<QtCore>"@, "<QtGui> <QtWidgets>"@);
    assert("<QtCore> <QtGui> <QtWidgets>"@ =~= "<QtCore>"@ + " "@ + "<QtGui> <QtWidgets>"@) by {
        reveal_strlit("<QtCore> <QtGui> <QtWidgets>");
        reveal_strlit("<QtCore>");
        reveal_strlit("<QtGui> <QtWidgets>");
        reveal_strlit(" ");
    }
    assert(words("<QtCore> <QtGui> <QtWidgets>"@) =~= seq!["<QtCore>"@, "<QtGui>"@, "<QtWidgets>"@]);
}

proof fn lemma_split_core_network_httpserver()
    ensures
        words("Core Network HttpServer"@) == seq!["Core"@, "Network"@, "HttpServer"@],
{
    assert(is_word("Core"@)) by {
        reveal_strlit("Core");
        assert forall|i: int| 0 <= i < 4 implies !is_space(#[trigger] "Core"@[i]) by {
            assert(i == 0 || i == 1 || i == 2 || i == 3);
        }
    }
    assert(is_word("Network"@)) by {
        reveal_strlit("Network");
        assert forall|i: int| 0 <= i < 7 implies !is_space(#[trigger] "Network"@[i]) by {
            assert(i == 0 || i == 1 || i == 2 || i == 3 || i == 4 || i == 5 || i == 6);
        }
    }
    assert(is_word("HttpServer"@)) by {
        reveal_strlit("HttpServer");
        assert forall|i: int| 0 <= i < 10 implies !is_space(#[trigger] "HttpServer"@[i]) by {
            assert(i == 0 || i == 1 || i == 2 || i == 3 || i == 4 || i == 5 || i == 6 || i == 7
                || i == 8 || i == 9);
        }
    }
    lemma_words_one("HttpServer"@);
    lemma_words_more("Network"@, "HttpServer"@);
    assert("Network HttpServer"@ =~= "Network"@ + " "@ + "HttpServer"@) by {
        reveal_strlit("Network HttpServer");
        reveal_strlit("Network");
        reveal_strlit("HttpServer");
        reveal_strlit(" ");
    }
    lemma_words_more("Core"@, "Network HttpServer"@);
    assert("Core Network HttpServer"@ =~= "Core"@ + " "@ + "Network HttpServer"@) by {
        reveal_strlit("Core Network HttpServer");
        reveal_strlit("Core");
        reveal_strlit("Network HttpServer");
        reveal_strlit(" ");
    }
    assert(words("Core Network HttpServer"@) =~= seq!["Core"@, "Network"@, "HttpServer"@]);
}

proof fn lemma_split_qt6_core_qt6_network_qt6_httpserver()
    ensures
        words("Qt6::Core Qt6::Network Qt6::HttpServer"@) == seq!["Qt6::Core"@, "Qt6::Network"@, "Qt6::HttpServer"@],
{
    assert(is_word("Qt6::Core"@)) by {
        reveal_strlit("Qt6::Core");
        assert forall|i: int| 0 <= i < 9 implies !is_space(#[trigger] "Qt6::Core"@[i]) by {
            assert(i == 0 || i == 1 || i == 2 || i == 3 || i == 4 || i == 5 || i == 6 || i == 7 || i == 8);
        }
    }
    assert(is_word("Qt6::Network"@)) by {
        reveal_strlit("Qt6::Network");
        assert forall|i: int| 0 <= i < 12 implies !is_space(#[trigger] "Qt6::Network"@[i]) by {
            assert(i == 0 || i == 1 || i == 2 || i == 3 || i == 4 || i == 5 || i == 6 || i == 7
                || i == 8 || i == 9 || i == 10 || i == 11);
        }
    }
    assert(is_word("Qt6::HttpServer"@)) by {
        reveal_strlit("Qt6::HttpServer");
        assert forall|i: int| 0 <= i < 15 implies !is_space(#[trigger] "Qt6::HttpServer"@[i]) by {
            assert(i == 0 || i == 1 || i == 2 || i == 3 || i == 4 || i == 5 || i == 6 || i == 7
                || i == 8 || i == 9 || i == 10 || i == 11 || i == 12 || i == 13 || i == 14);
        }
    }
    lemma_words_one("Qt6::HttpServer"@);
    lemma_words_more("Qt6::Network"@, "Qt6::HttpServer"@);
    assert("Qt6::Network Qt6::HttpServer"@ =~= "Qt6::Network"@ + " "@ + "Qt6::HttpServer"@) by {
        reveal_strlit("Qt6::Network Qt6::HttpServer");
        reveal_strlit("Qt6::Network");
        reveal_strlit("Qt6::HttpServer");
        reveal_strlit(" ");
    }
    lemma_words_more("Qt6::Core"@, "Qt6::Network Qt6::HttpServer"@);
    assert("Qt6::Core Qt6::Network Qt6::HttpServer"@ =~= "Qt6::Core"@ + " "@
        + "Qt6::Network Qt6::HttpServer"@) by {
        reveal_strlit("Qt6::Core Qt6::Network Qt6::HttpServer");
        reveal_strlit("Qt6::Core");
        reveal_strlit("Qt6::Network Qt6::HttpServer");
        reveal_strlit(" ");
    }
    assert(words("Qt6::Core Qt6::Network Qt6::HttpServer"@) =~= seq!["Qt6::Core"@, "Qt6::Network"@, "Qt6::HttpServer"@]);
}

proof fn lemma_split_qtcore_qtnetwork_qthttpserver()
    ensures
        words("<QtCore> <QtNetwork> <QtHttpServer>"@) == seq!["<QtCore>"@, "<QtNetwork>"@, "<QtHttpServer>"@],
{
    assert(is_word("<QtCore>"@)) by {
        reveal_strlit("<QtCore>");
        assert forall|i: int| 0 <= i < 8 implies !is_space(#[trigger] "<QtCore>"@[i]) by {
            assert(i == 0 || i == 1 || i == 2 || i == 3 || i == 4 || i == 5 || i == 6 || i == 7);
        }
    }
    assert(is_word("<QtNetwork>"@)) by {
        reveal_strlit("<QtNetwork>");
        assert forall|i: int| 0 <= i < 11 implies !is_space(#[trigger] "<QtNetwork>"@[i]) by {
            assert(i == 0 || i == 1 || i == 2 || i == 3 || i == 4 || i == 5 || i == 6 || i == 7
                || i == 8 || i == 9 || i == 10);
        }
    }
    assert(is_word("<QtHttpServer>"@)) by {
        reveal_strlit("<QtHttpServer>");
        assert forall|i: int| 0 <= i < 14 implies !is_space(#[trigger] "<QtHttpServer>"@[i]) by {
            assert(i == 0 || i == 1 || i == 2 || i == 3 || i == 4 || i == 5 || i == 6 || i == 7
                || i == 8 || i == 9 || i == 10 || i == 11 || i == 12 || i == 13);
        }
    }
    lemma_words_one("<QtHttpServer>"@);
    lemma_words_more("<QtNetwork>"@, "<QtHttpServer>"@);
    assert("<QtNetwork> <QtHttpServer>"@ =~= "<QtNetwork>"@ + " "@ + "<QtHttpServer>"@) by {
        reveal_strlit("<QtNetwork> <QtHttpServer>");
        reveal_strlit("<QtNetwork>");
        reveal_strlit("<QtHttpServer>");
        reveal_strlit(" ");
    }
    lemma_words_more("<QtCore>"@, "<QtNetwork> <QtHttpServer>"@);
    assert("<QtCore> <QtNetwork> <QtHttpServer>"@ =~= "<QtCore>"@ + " "@ + "<QtNetwork> <QtHttpServer>"@) by {
        reveal_strlit("<QtCore> <QtNetwork> <QtHttpServer>");
        reveal_strlit("<QtCore>");
        reveal_strlit("<QtNetwork> <QtHttpServer>");
        reveal_strlit(" ");
    }
    assert(words("<QtCore> <QtNetwork> <QtHttpServer>"@) =~= seq!["<QtCore>"@, "<QtNetwork>"@, "<QtHttpServer>"@]);
}

proof fn lemma_split_core()
    ensures
        words("Core"@) == seq!["Core"@],
{
    assert(is_word("Core"@)) by {
        reveal_strlit("Core");
        assert forall|i: int| 0 <= i < 4 implies !is_space(#[trigger] "Core"@[i]) by {
            assert(i == 0 || i == 1 || i == 2 || i == 3);
        }
    }
    lemma_words_one("Core"@);
    assert(words("Core"@) =~= seq!["Core"@]);
}

proof fn lemma_split_qt6_core()
    ensures
        words("Qt6::Core"@) == seq!["Qt6::Core"@],
{
    assert(is_word("Qt6::Core"@)) by {
        reveal_strlit("Qt6::Core");
        assert forall|i: int| 0 <= i < 9 implies !is_space(#[trigger] "Qt6::Core"@[i]) by {
            assert(i == 0 || i == 1 || i == 2 || i == 3 || i == 4 || i == 5 || i == 6 || i == 7 || i == 8);
        }
    }
    lemma_words_one("Qt6::Core"@);
    assert(words("Qt6::Core"@) =~= seq!["Qt6::Core"@]);
}

proof fn lemma_split_qtcore()
    ensures
        words("<QtCore>"@) == seq!["<QtCore>"@],
{
    assert(is_word("<QtCore>"@)) by {
        reveal_strlit("<QtCore>");
        assert forall|i: int| 0 <= i < 8 implies !is_space(#[trigger] "<QtCore>"@[i]) by {
            assert(i == 0 || i == 1 || i == 2 || i == 3 || i == 4 || i == 5 || i == 6 || i == 7);
        }
    }
    lemma_words_one("<QtCore>"@);
    assert(words("<QtCore>"@) =~= seq!["<QtCore>"@]);
}

proof fn lemma_split_core_gui_guiprivate_svg_canvaspainter()
    ensures
        words("Core Gui GuiPrivate Svg CanvasPainter"@) == seq!["Core"@, "Gui"@, "GuiPrivate"@, "Svg"@, "CanvasPainter"@],
{
    assert(is_word("Core"@)) by {
        reveal_strlit("Core");
        assert forall|i: int| 0 <= i < 4 implies !is_space(#[trigger] "Core"@[i]) by {
            assert(i == 0 || i == 1 || i == 2 || i == 3);
        }
    }
    assert(is_word("Gui"@)) by {
        reveal_strlit("Gui");
        assert forall|i: int| 0 <= i < 3 implies !is_space(#[trigger] "Gui"@[i]) by {
            assert(i == 0 || i == 1 || i == 2);
        }
    }
    assert(is_word("GuiPrivate"@)) by {
        reveal_strlit("GuiPrivate");
        assert forall|i: int| 0 <= i < 10 implies !is_space(#[trigger] "GuiPrivate"@[i]) by {
            assert(i == 0 || i == 1 || i == 2 || i == 3 || i == 4 || i == 5 || i == 6 || i == 7
                || i == 8 || i == 9);
        }
    }
    assert(is_word("Svg"@)) by {
        reveal_strlit("Svg");
        assert forall|i: int| 0 <= i < 3 implies !is_space(#[trigger] "Svg"@[i]) by {
            assert(i == 0 || i == 1 || i == 2);
        }
    }
    assert(is_word("CanvasPainter"@)) by {
        reveal_strlit("CanvasPainter");
        assert forall|i: int| 0 <= i < 13 implies !is_space(#[trigger] "CanvasPainter"@[i]) by {
            assert(i == 0 || i == 1 || i == 2 || i == 3 || i == 4 || i == 5 || i == 6 || i == 7
                || i == 8 || i == 9 || i == 10 || i == 11 || i == 12);
        }
    }
    lemma_words_one("CanvasPainter"@);
    lemma_words_more("Svg"@, "CanvasPainter"@);
    assert("Svg CanvasPainter"@ =~= "Svg"@ + " "@ + "CanvasPainter"@) by {
        reveal_strlit("Svg CanvasPainter");
        reveal_strlit("Svg");
        reveal_strlit("CanvasPainter");
        reveal_strlit(" ");
    }
    lemma_words_more("GuiPrivate"@, "Svg CanvasPainter"@);
    assert("GuiPrivate Svg CanvasPainter"@ =~= "GuiPrivate"@ + " "@ + "Svg CanvasPainter"@) by {
        reveal_strlit("GuiPrivate Svg CanvasPainter");
        reveal_strlit("GuiPrivate");
        reveal_strlit("Svg CanvasPainter");
        reveal_strlit(" ");
    }
    lemma_words_more("Gui"@, "GuiPrivate Svg CanvasPainter"@);
    assert("Gui GuiPrivate Svg CanvasPainter"@ =~= "Gui"@ + " "@ + "GuiPrivate Svg CanvasPainter"@) by {
        reveal_strlit("Gui GuiPrivate Svg CanvasPainter");
        reveal_strlit("Gui");
        reveal_strlit("GuiPrivate Svg CanvasPainter");
        reveal_strlit(" ");
    }
    lemma_words_more("Core"@, "Gui GuiPrivate Svg CanvasPainter"@);
    assert("Core Gui GuiPrivate Svg CanvasPainter"@ =~= "Core"@ + " "@
        + "Gui GuiPrivate Svg CanvasPainter"@) by {
        reveal_strlit("Core Gui GuiPrivate Svg CanvasPainter");
        reveal_strlit("Core");
        reveal_strlit("Gui GuiPrivate Svg CanvasPainter");
        reveal_strlit(" ");
    }
    assert(words("Core Gui GuiPrivate Svg CanvasPainter"@) =~= seq!["Core"@, "Gui"@, "GuiPrivate"@, "Svg"@, "CanvasPainter"@]);
}

proof fn lemma_split_qt6_core_qt6_gui_qt6_guiprivate_qt6_svg_qt6_canv()
    ensures
        words("Qt6::Core Qt6::Gui Qt6::GuiPrivate Qt6::Svg Qt6::CanvasPainter cute_ui::cute_ui"@) == seq!["Qt6::Core"@, "Qt6::Gui"@, "Qt6::GuiPrivate"@, "Qt6::Svg"@, "Qt6::CanvasPainter"@, "cute_ui::cute_ui"@],
{
    assert(is_word("Qt6::Core"@)) by {
        reveal_strlit("Qt6::Core");
        assert forall|i: int| 0 <= i < 9 implies !is_space(#[trigger] "Qt6::Core"@[i]) by {
            assert(i == 0 || i == 1 || i == 2 || i == 3 || i == 4 || i == 5 || i == 6 || i == 7 || i == 8);
        }
    }
    assert(is_word("Qt6::Gui"@)) by {
        reveal_strlit("Qt6::Gui");
        assert forall|i: int| 0 <= i < 8 implies !is_space(#[trigger] "Qt6::Gui"@[i]) by {
            assert(i == 0 || i == 1 || i == 2 || i == 3 || i == 4 || i == 5 || i == 6 || i == 7);
        }
    }
    assert(is_word("Qt6::GuiPrivate"@)) by {
        reveal_strlit("Qt6::GuiPrivate");
        assert forall|i: int| 0 <= i < 15 implies !is_space(#[trigger] "Qt6::GuiPrivate"@[i]) by {
            assert(i == 0 || i == 1 || i == 2 || i == 3 || i == 4 || i == 5 || i == 6 || i == 7
                || i == 8 || i == 9 || i == 10 || i == 11 || i == 12 || i == 13 || i == 14);
        }
    }
    assert(is_word("Qt6::Svg"@)) by {
        reveal_strlit("Qt6::Svg");
        assert forall|i: int| 0 <= i < 8 implies !is_space(#[trigger] "Qt6::Svg"@[i]) by {
            assert(i == 0 || i == 1 || i == 2 || i == 3 || i == 4 || i == 5 || i == 6 || i == 7);
        }
    }
    assert(is_word("Qt6::CanvasPainter"@)) by {
        reveal_strlit("Qt6::CanvasPainter");
        assert forall|i: int| 0 <= i < 18 implies !is_space(#[trigger] "Qt6::CanvasPainter"@[i]) by {
            assert(i == 0 || i == 1 || i == 2 || i == 3 || i == 4 || i == 5 || i == 6 || i == 7
                || i == 8 || i == 9 || i == 10 || i == 11 || i == 12 || i == 13 || i == 14
                || i == 15 || i == 16 || i == 17);
        }
    }
    assert(is_word("cute_ui::cute_ui"@)) by {
        reveal_strlit("cute_ui::cute_ui");
        assert forall|i: int| 0 <= i < 16 implies !is_space(#[trigger] "cute_ui::cute_ui"@[i]) by {
            assert(i == 0 || i == 1 || i == 2 || i == 3 || i == 4 || i == 5 || i == 6 || i == 7
                || i == 8 || i == 9 || i == 10 || i == 11 || i == 12 || i == 13 || i == 14
                || i == 15);
        }
    }
    lemma_words_one("cute_ui::cute_ui"@);
    lemma_words_more("Qt6::CanvasPainter"@, "cute_ui::cute_ui"@);
    assert("Qt6::CanvasPainter cute_ui::cute_ui"@ =~= "Qt6::CanvasPainter"@ + " "@ + "cute_ui::cute_ui"@) by {
        reveal_strlit("Qt6::CanvasPainter cute_ui::cute_ui");
        reveal_strlit("Qt6::CanvasPainter");
        reveal_strlit("cute_ui::cute_ui");
        reveal_strlit(" ");
    }
    lemma_words_more("Qt6::Svg"@, "Qt6::CanvasPainter cute_ui::cute_ui"@);
    assert("Qt6::Svg Qt6::CanvasPainter cute_ui::cute_ui"@ =~= "Qt6::Svg"@ + " "@
        + "Qt6::CanvasPainter cute_ui::cute_ui"@) by {
        reveal_strlit("Qt6::Svg Qt6::CanvasPainter cute_ui::cute_ui");
        reveal_strlit("Qt6::Svg");
        reveal_strlit("Qt6::CanvasPainter cute_ui::cute_ui");
        reveal_strlit(" ");
    }
    lemma_words_more("Qt6::GuiPrivate"@, "Qt6::Svg Qt6::CanvasPainter cute_ui::cute_ui"@);
    assert("Qt6::GuiPrivate Qt6::Svg Qt6::CanvasPainter cute_ui::cute_ui"@ =~= "Qt6::GuiPrivate"@
        + " "@ + "Qt6::Svg Qt6::CanvasPainter cute_ui::cute_ui"@) by {
        reveal_strlit("Qt6::GuiPrivate Qt6::Svg Qt6::CanvasPainter cute_ui::cute_ui");
        reveal_strlit("Qt6::GuiPrivate");
        reveal_strlit("Qt6::Svg Qt6::CanvasPainter cute_ui::cute_ui");
        reveal_strlit(" ");
    }
    lemma_words_more("Qt6::Gui"@, "Qt6::GuiPrivate Qt6::Svg Qt6::CanvasPainter cute_ui::cute_ui"@);
    assert("Qt6::Gui Qt6::GuiPrivate Qt6::Svg Qt6::CanvasPainter cute_ui::cute_ui"@ =~= "Qt6::Gui"@
        + " "@ + "Qt6::GuiPrivate Qt6::Svg Qt6::CanvasPainter cute_ui::cute_ui"@) by {
        reveal_strlit("Qt6::Gui Qt6::GuiPrivate Qt6::Svg Qt6::CanvasPainter cute_ui::cute_ui");
        reveal_strlit("Qt6::Gui");
        reveal_strlit("Qt6::GuiPrivate Qt6::Svg Qt6::CanvasPainter cute_ui::cute_ui");
        reveal_strlit(" ");
    }
    lemma_words_more("Qt6::Core"@, "Qt6::Gui Qt6::GuiPrivate Qt6::Svg Qt6::CanvasPainter cute_ui::cute_ui"@);
    assert("Qt6::Core Qt6::Gui Qt6::GuiPrivate Qt6::Svg Qt6::CanvasPainter cute_ui::cute_ui"@
        =~= "Qt6::Core"@ + " "@
        + "Qt6::Gui Qt6::GuiPrivate Qt6::Svg Qt6::CanvasPainter cute_ui::cute_ui"@) by {
        reveal_strlit("Qt6::Core Qt6::Gui Qt6::GuiPrivate Qt6::Svg Qt6::CanvasPainter cute_ui::cute_ui");
        reveal_strlit("Qt6::Core");
        reveal_strlit("Qt6::Gui Qt6::GuiPrivate Qt6::Svg Qt6::CanvasPainter cute_ui::cute_ui");
        reveal_strlit(" ");
    }
    assert(words("Qt6::Core Qt6::Gui Qt6::GuiPrivate Qt6::Svg Qt6::CanvasPainter cute_ui::cute_ui"@) =~= seq!["Qt6::Core"@, "Qt6::Gui"@, "Qt6::GuiPrivate"@, "Qt6::Svg"@, "Qt6::CanvasPainter"@, "cute_ui::cute_ui"@]);
}

proof fn lemma_split_qtcore_qtgui()
    ensures
        words("<QtCore> <QtGui>"@) == seq!["<QtCore>"@, "<QtGui>"@],
{
    assert(is_word("<QtCore>"@)) by {
        reveal_strlit("<QtCore>");
        assert forall|i: int| 0 <= i < 8 implies !is_space(#[trigger] "<QtCore>"@[i]) by {
            assert(i == 0 || i == 1 || i == 2 || i == 3 || i == 4 || i == 5 || i == 6 || i == 7);
        }
    }
    assert(is_word("<QtGui>"@)) by {
        reveal_strlit("<QtGui>");
        assert forall|i: int| 0 <= i < 7 implies !is_space(#[trigger] "<QtGui>"@[i]) by {
            assert(i == 0 || i == 1 || i == 2 || i == 3 || i == 4 || i == 5 || i == 6);
        }
    }
    lemma_words_one("<QtGui>"@);
    lemma_words_more("<QtCore>"@, "<QtGui>"@);
    assert("<QtCore> <QtGui>"@ =~= "<QtCore>"@ + " "@ + "<QtGui>"@) by {
        reveal_strlit("<QtCore> <QtGui>");
        reveal_strlit("<QtCore>");
        reveal_strlit("<QtGui>");
        reveal_strlit(" ");
    }
    assert(words("<QtCore> <QtGui>"@) =~= seq!["<QtCore>"@, "<QtGui>"@]);
}

// ---- modes ---------------------------------------------------------------------------

/// A program links the library of every Qt component that its mode looks for, in
/// the same order, and no other of Qt's; the CuteUI mode links its runtime too.
pub proof fn law_components_are_linked(mode: BuildMode)
    ensures
        words(mode_libs(mode)) == wrapped(words(mode_components(mode)), "Qt6::"@, ""@) + (if mode
            == BuildMode::CuteUi {
            seq!["cute_ui::cute_ui"@]
        } else {
            Seq::empty()
        }),
        words(mode_components(mode)).len() > 0,
        words(mode_components(mode))[0] == "Core"@,
{
    reveal_strlit("");
    reveal_strlit("Qt6::");
    match mode {
        BuildMode::Qml => {
            lemma_split_core_gui_qml_quick_quickcontrols2();
            lemma_split_qt6_core_qt6_gui_qt6_qml_qt6_quick_qt6_quickcont();
            assert("Qt6::"@ + "Core"@ + ""@ =~= "Qt6::Core"@) by {
                reveal_strlit("Core");
                reveal_strlit("Qt6::Core");
            }
            assert("Qt6::"@ + "Gui"@ + ""@ =~= "Qt6::Gui"@) by {
                reveal_strlit("Gui");
                reveal_strlit("Qt6::Gui");
            }
            assert("Qt6::"@ + "Qml"@ + ""@ =~= "Qt6::Qml"@) by {
                reveal_strlit("Qml");
                reveal_strlit("Qt6::Qml");
            }
            assert("Qt6::"@ + "Quick"@ + ""@ =~= "Qt6::Quick"@) by {
                reveal_strlit("Quick");
                reveal_strlit("Qt6::Quick");
            }
            assert("Qt6::"@ + "QuickControls2"@ + ""@ =~= "Qt6::QuickControls2"@) by {
                reveal_strlit("QuickControls2");
                reveal_strlit("Qt6::QuickControls2");
            }
            assert(words(mode_libs(mode)) =~= wrapped(words(mode_components(mode)), "Qt6::"@, ""@)
                + Seq::empty());
        },
        BuildMode::Widgets => {
            lemma_split_core_gui_widgets();
            lemma_split_qt6_core_qt6_gui_qt6_widgets();
            assert("Qt6::"@ + "Core"@ + ""@ =~= "Qt6::Core"@) by {
                reveal_strlit("Core");
                reveal_strlit("Qt6::Core");
            }
            assert("Qt6::"@ + "Gui"@ + ""@ =~= "Qt6::Gui"@) by {
                reveal_strlit("Gui");
                reveal_strlit("Qt6::Gui");
            }
            assert("Qt6::"@ + "Widgets"@ + ""@ =~= "Qt6::Widgets"@) by {
                reveal_strlit("Widgets");
                reveal_strlit("Qt6::Widgets");
            }
            assert(words(mode_libs(mode)) =~= wrapped(words(mode_components(mode)), "Qt6::"@, ""@)
                + Seq::empty());
        },
        BuildMode::Server => {
            lemma_split_core_network_httpserver();
            lemma_split_qt6_core_qt6_network_qt6_httpserver();
            assert("Qt6::"@ + "Core"@ + ""@ =~= "Qt6::Core"@) by {
                reveal_strlit("Core");
                reveal_strlit("Qt6::Core");
            }
            assert("Qt6::"@ + "Network"@ + ""@ =~= "Qt6::Network"@) by {
                reveal_strlit("Network");
                reveal_strlit("Qt6::Network");
            }
            assert("Qt6::"@ + "HttpServer"@ + ""@ =~= "Qt6::HttpServer"@) by {
                reveal_strlit("HttpServer");
                reveal_strlit("Qt6::HttpServer");
            }
            assert(words(mode_libs(mode)) =~= wrapped(words(mode_components(mode)), "Qt6::"@, ""@)
                + Seq::empty());
        },
        BuildMode::Cli => {
            lemma_split_core();
            lemma_split_qt6_core();
            assert("Qt6::"@ + "Core"@ + ""@ =~= "Qt6::Core"@) by {
                reveal_strlit("Core");
                reveal_strlit("Qt6::Core");
            }
            assert(words(mode_libs(mode)) =~= wrapped(words(mode_components(mode)), "Qt6::"@, ""@)
                + Seq::empty());
        },
        BuildMode::Plain => {
            lemma_split_core();
            lemma_split_qt6_core();
            assert("Qt6::"@ + "Core"@ + ""@ =~= "Qt6::Core"@) by {
                reveal_strlit("Core");
                reveal_strlit("Qt6::Core");
            }
            assert(words(mode_libs(mode)) =~= wrapped(words(mode_components(mode)), "Qt6::"@, ""@)
                + Seq::empty());
        },
        BuildMode::CuteUi => {
            lemma_split_core_gui_guiprivate_svg_canvaspainter();
            lemma_split_qt6_core_qt6_gui_qt6_guiprivate_qt6_svg_qt6_canv();
            assert("Qt6::"@ + "Core"@ + ""@ =~= "Qt6::Core"@) by {
                reveal_strlit("Core");
                reveal_strlit("Qt6::Core");
            }
            assert("Qt6::"@ + "Gui"@ + ""@ =~= "Qt6::Gui"@) by {
                reveal_strlit("Gui");
                reveal_strlit("Qt6::Gui");
            }
            assert("Qt6::"@ + "GuiPrivate"@ + ""@ =~= "Qt6::GuiPrivate"@) by {
                reveal_strlit("GuiPrivate");
                reveal_strlit("Qt6::GuiPrivate");
            }
            assert("Qt6::"@ + "Svg"@ + ""@ =~= "Qt6::Svg"@) by {
                reveal_strlit("Svg");
                reveal_strlit("Qt6::Svg");
            }
            assert("Qt6::"@ + "CanvasPainter"@ + ""@ =~= "Qt6::CanvasPainter"@) by {
                reveal_strlit("CanvasPainter");
                reveal_strlit("Qt6::CanvasPainter");
            }
            assert(words(mode_libs(mode)) =~= wrapped(words(mode_components(mode)), "Qt6::"@, ""@)
                + seq!["cute_ui::cute_ui"@]);
        },
    }
}

/// A program precompiles umbrella headers of its own components: those of its
/// first ones, in their order, and at least the most fundamental one.
pub proof fn law_headers_are_of_components(mode: BuildMode)
    ensures
        0 < words(mode_pch(mode)).len() <= words(mode_components(mode)).len(),
        words(mode_pch(mode)) == wrapped(
            words(mode_components(mode)).take(words(mode_pch(mode)).len() as int),
            "<Qt"@,
            ">"@,
        ),
        mode == BuildMode::Widgets || mode == BuildMode::Server || mode == BuildMode::Cli || mode
            == BuildMode::Plain ==> words(mode_pch(mode)).len() == words(
            mode_components(mode),
        ).len(),
{
    reveal_strlit("<Qt");
    reveal_strlit(">");
    match mode {
        BuildMode::Qml => {
            lemma_split_core_gui_qml_quick_quickcontrols2();
            lemma_split_qtcore_qtgui_qtqml_qtquick();
            assert("<Qt"@ + "Core"@ + ">"@ =~= "<QtCore>"@) by {
                reveal_strlit("Core");
                reveal_strlit("<QtCore>");
            }
            assert("<Qt"@ + "Gui"@ + ">"@ =~= "<QtGui>"@) by {
                reveal_strlit("Gui");
                reveal_strlit("<QtGui>");
            }
            assert("<Qt"@ + "Qml"@ + ">"@ =~= "<QtQml>"@) by {
                reveal_strlit("Qml");
                reveal_strlit("<QtQml>");
            }
            assert("<Qt"@ + "Quick"@ + ">"@ =~= "<QtQuick>"@) by {
                reveal_strlit("Quick");
                reveal_strlit("<QtQuick>");
            }
            assert(words(mode_pch(mode)) =~= wrapped(words(mode_components(mode)).take(4), "<Qt"@, ">"@));
        },
        BuildMode::Widgets => {
            lemma_split_core_gui_widgets();
            lemma_split_qtcore_qtgui_qtwidgets();
            assert("<Qt"@ + "Core"@ + ">"@ =~= "<QtCore>"@) by {
                reveal_strlit("Core");
                reveal_strlit("<QtCore>");
            }
            assert("<Qt"@ + "Gui"@ + ">"@ =~= "<QtGui>"@) by {
                reveal_strlit("Gui");
                reveal_strlit("<QtGui>");
            }
            assert("<Qt"@ + "Widgets"@ + ">"@ =~= "<QtWidgets>"@) by {
                reveal_strlit("Widgets");
                reveal_strlit("<QtWidgets>");
            }
            assert(words(mode_pch(mode)) =~= wrapped(words(mode_components(mode)).take(3), "<Qt"@, ">"@));
        },
        BuildMode::Server => {
            lemma_split_core_network_httpserver();
            lemma_split_qtcore_qtnetwork_qthttpserver();
            assert("<Qt"@ + "Core"@ + ">"@ =~= "<QtCore>"@) by {
                reveal_strlit("Core");
                reveal_strlit("<QtCore>");
            }
            assert("<Qt"@ + "Network"@ + ">"@ =~= "<QtNetwork>"@) by {
                reveal_strlit("Network");
                reveal_strlit("<QtNetwork>");
            }
            assert("<Qt"@ + "HttpServer"@ + ">"@ =~= "<QtHttpServer>"@) by {
                reveal_strlit("HttpServer");
                reveal_strlit("<QtHttpServer>");
            }
            assert(words(mode_pch(mode)) =~= wrapped(words(mode_components(mode)).take(3), "<Qt"@, ">"@));
        },
        BuildMode::Cli => {
            lemma_split_core();
            lemma_split_qtcore();
            assert("<Qt"@ + "Core"@ + ">"@ =~= "<QtCore>"@) by {
                reveal_strlit("Core");
                reveal_strlit("<QtCore>");
            }
            assert(words(mode_pch(mode)) =~= wrapped(words(mode_components(mode)).take(1), "<Qt"@, ">"@));
        },
        BuildMode::Plain => {
            lemma_split_core();
            lemma_split_qtcore();
            assert("<Qt"@ + "Core"@ + ">"@ =~= "<QtCore>"@) by {
                reveal_strlit("Core");
                reveal_strlit("<QtCore>");
            }
            assert(words(mode_pch(mode)) =~= wrapped(words(mode_components(mode)).take(1), "<Qt"@, ">"@));
        },
        BuildMode::CuteUi => {
            lemma_split_core_gui_guiprivate_svg_canvaspainter();
            lemma_split_qtcore_qtgui();
            assert("<Qt"@ + "Core"@ + ">"@ =~= "<QtCore>"@) by {
                reveal_strlit("Core");
                reveal_strlit("<QtCore>");
            }
            assert("<Qt"@ + "Gui"@ + ">"@ =~= "<QtGui>"@) by {
                reveal_strlit("Gui");
                reveal_strlit("<QtGui>");
            }
            assert(words(mode_pch(mode)) =~= wrapped(words(mode_components(mode)).take(2), "<Qt"@, ">"@));
        },
    }
}

/// The mark of an application class decides the mode: CuteUI before widgets,
/// widgets before QML, QML before servers, servers before programs around a core
/// application; a program without any of them is plain.
pub proof fn law_marks_decide_the_mode(cpp: Seq<char>)
    ensures
        ({
            let ui = contains(cpp, "cute::ui::App"@);
            let widgets = contains(cpp, "QApplication app"@);
            let qml = contains(cpp, "QGuiApplication"@) || contains(cpp, "QQmlApplicationEngine"@);
            let server = contains(cpp, "QHttpServer"@);
            let core = contains(cpp, "QCoreApplication"@);
            &&& mode_of(cpp) == BuildMode::CuteUi <==> ui
            &&& mode_of(cpp) == BuildMode::Widgets <==> widgets && !ui
            &&& mode_of(cpp) == BuildMode::Qml <==> qml && !widgets && !ui
            &&& mode_of(cpp) == BuildMode::Server <==> server && !qml && !widgets && !ui
            &&& mode_of(cpp) == BuildMode::Cli <==> core && !server && !qml && !widgets && !ui
            &&& mode_of(cpp) == BuildMode::Plain <==> !core && !server && !qml && !widgets && !ui
        }),
{
}

/// What a program needs beyond its mode: every further component is linked under
/// Qt's name, the network client classes bring the network, a code highlighter
/// the widgets, and a program with neither needs nothing.
pub proof fn law_extras_follow_the_text(cpp: Seq<char>, e: BuildExtras, mark: Seq<char>)
    requires
        are_extras_of(cpp, e),
    ensures
        views(e.qt6_link_libs@) == wrapped(views(e.qt6_components@), "Qt6::"@, ""@),
        views(e.pch_headers@).len() == views(e.extra_includes@).len(),
        (mark == "QNetworkAccessManager"@ || mark == "QNetworkRequest"@ || mark
            == "QNetworkReply"@) && contains(cpp, mark) ==> views(e.qt6_components@).contains(
            "Network"@,
        ) && views(e.pch_headers@).contains("<QtNetwork>"@) && views(e.extra_includes@).contains(
            "#include <QtNetwork>\n"@,
        ),
        contains(cpp, "new CodeHighlighter("@) ==> views(e.qt6_components@).contains("Gui"@)
            && views(e.qt6_components@).contains("Widgets"@) && views(e.extra_includes@).contains(
            "#include \"cute_code_highlighter.h\"\n"@,
        ),
        !contains(cpp, "QNetworkAccessManager"@) && !contains(cpp, "QNetworkRequest"@) && !contains(
            cpp,
            "QNetworkReply"@,
        ) && !contains(cpp, "new CodeHighlighter("@) ==> views(e.qt6_components@).len() == 0
            && views(e.pch_headers@).len() == 0 && views(e.extra_includes@).len() == 0,
{
    let c = views(e.qt6_components@);
    let l = views(e.qt6_link_libs@);
    let h = views(e.pch_headers@);
    let x = views(e.extra_includes@);
    reveal_strlit("");
    assert("Qt6::"@ + "Network"@ + ""@ =~= "Qt6::Network"@) by {
        reveal_strlit("Qt6::");
        reveal_strlit("Network");
        reveal_strlit("Qt6::Network");
    }
    assert("Qt6::"@ + "Gui"@ + ""@ =~= "Qt6::Gui"@) by {
        reveal_strlit("Qt6::");
        reveal_strlit("Gui");
        reveal_strlit("Qt6::Gui");
    }
    assert("Qt6::"@ + "Widgets"@ + ""@ =~= "Qt6::Widgets"@) by {
        reveal_strlit("Qt6::");
        reveal_strlit("Widgets");
        reveal_strlit("Qt6::Widgets");
    }
    assert(l =~= wrapped(c, "Qt6::"@, ""@));
    let net = contains(cpp, "QNetworkAccessManager"@) || contains(cpp, "QNetworkRequest"@)
        || contains(cpp, "QNetworkReply"@);
    if net {
        assert(c[0] == "Network"@);
        assert(h[0] == "<QtNetwork>"@);
        assert(x[0] == "#include <QtNetwork>\n"@);
    }
    if contains(cpp, "new CodeHighlighter("@) {
        let k: int = if net { 1 } else { 0 };
        assert(c[k] == "Gui"@);
        assert(c[k + 1] == "Widgets"@);
        assert(x[k] == "#include \"cute_code_highlighter.h\"\n"@);
    }
}

/// A build needs every Qt component of its mode and every one that the manifest
/// names, each once.
pub proof fn law_needed_components(mode: BuildMode, manifest: Manifest, j: int, k: int)
    ensures
        0 <= j < words(mode_components(mode)).len() ==> needed_components(mode, manifest).contains(
            words(mode_components(mode))[j],
        ),
        0 <= j < manifest.cmake.find_package@.len() && 0 <= k < components_of(
            manifest.cmake.find_package@[j]@,
            "Qt6"@,
        ).len() ==> needed_components(mode, manifest).contains(
            components_of(manifest.cmake.find_package@[j]@, "Qt6"@)[k],
        ),
{
    let base = words(mode_components(mode));
    let args = views(manifest.cmake.find_package@);
    let n = args.len() as int;
    if 0 <= j < base.len() {
        lemma_needed_keeps(base, args, n, base[j]);
    }
    if 0 <= j < n && 0 <= k < components_of(args[j], "Qt6"@).len() {
        lemma_needed_has(base, args, n, j, k);
    }
}

proof fn lemma_added_keeps(list: Seq<Seq<char>>, xs: Seq<Seq<char>>, n: int, x: Seq<char>)
    requires
        0 <= n <= xs.len(),
        list.contains(x),
    ensures
        all_added(list, xs, n).contains(x),
    decreases n,
{
    if n > 0 {
        lemma_added_keeps(list, xs, n - 1, x);
        let before = all_added(list, xs, n - 1);
        let i = choose|i: int| 0 <= i < before.len() && before[i] == x;
        assert(all_added(list, xs, n)[i] == x);
    }
}

proof fn lemma_added_has(list: Seq<Seq<char>>, xs: Seq<Seq<char>>, n: int, k: int)
    requires
        0 <= k < n <= xs.len(),
    ensures
        all_added(list, xs, n).contains(xs[k]),
    decreases n,
{
    let before = all_added(list, xs, n - 1);
    if k == n - 1 {
        if !before.contains(xs[k]) {
            assert(all_added(list, xs, n)[before.len() as int] == xs[k]);
        }
    } else {
        lemma_added_has(list, xs, n - 1, k);
        let i = choose|i: int| 0 <= i < before.len() && before[i] == xs[k];
        assert(all_added(list, xs, n)[i] == xs[k]);
    }
}

proof fn lemma_needed_keeps(base: Seq<Seq<char>>, args: Seq<Seq<char>>, n: int, x: Seq<char>)
    requires
        0 <= n <= args.len(),
        base.contains(x),
    ensures
        with_manifest_components(base, args, n).contains(x),
    decreases n,
{
    if n > 0 {
        lemma_needed_keeps(base, args, n - 1, x);
        let c = components_of(args[n - 1], "Qt6"@);
        lemma_added_keeps(with_manifest_components(base, args, n - 1), c, c.len() as int, x);
    }
}

proof fn lemma_needed_has(base: Seq<Seq<char>>, args: Seq<Seq<char>>, n: int, j: int, k: int)
    requires
        0 <= j < n <= args.len(),
        0 <= k < components_of(args[j], "Qt6"@).len(),
    ensures
        with_manifest_components(base, args, n).contains(components_of(args[j], "Qt6"@)[k]),
    decreases n,
{
    let c = components_of(args[n - 1], "Qt6"@);
    let before = with_manifest_components(base, args, n - 1);
    if j == n - 1 {
        lemma_added_has(before, c, c.len() as int, k);
    } else {
        lemma_needed_has(base, args, n - 1, j, k);
        lemma_added_keeps(before, c, c.len() as int, components_of(args[j], "Qt6"@)[k]);
    }
}

// ---- CMake projects -----------------------------------------------------------------

/// The sources of a program: its resource file where it has one, and the
/// generated code.
pub open spec fn source_list(stem: Seq<char>, resources: Seq<Seq<char>>) -> Seq<char> {
    "add_executable("@ + stem + "\n"@ + join(
        wrapped(resources.push("generated/"@ + stem + ".cpp"@), "    "@, "\n"@),
        ""@,
    ) + ")\n"@
}

/// The line that links the libraries.
pub open spec fn link_line(stem: Seq<char>, libs: Seq<Seq<char>>, more: Seq<char>) -> Seq<char> {
    "target_link_libraries("@ + stem + " PRIVATE "@ + join(libs, " "@) + more + ")\n"@
}

/// The line that finds the components of Qt.
pub open spec fn qt_line(version: Seq<char>, components: Seq<Seq<char>>) -> Seq<char> {
    "find_package(Qt6"@ + version + " REQUIRED COMPONENTS "@ + join(components, " "@) + ")\n"@
}

/// What stands in a stretch of a project stands in the project.
#[verifier::rlimit(40)]
proof fn lemma_project_blocks(
    stem: Seq<char>,
    version: Seq<char>,
    components: Seq<char>,
    cuteui: Seq<char>,
    packages: Seq<char>,
    qrc: Seq<char>,
    bundle: Seq<char>,
    libs: Seq<char>,
    links: Seq<char>,
    pch: Seq<char>,
)
    ensures
        ({
            let t = project_text(stem, version, components, cuteui, packages, qrc, bundle, libs, links, pch);
            &&& contains(t, "add_executable("@ + stem + "\n"@ + qrc + "    generated/"@ + stem
                + ".cpp\n"@ + ")\n"@)
            &&& contains(t, "target_link_libraries("@ + stem + " PRIVATE "@ + libs + links + ")\n"@)
            &&& contains(t, "find_package(Qt6"@ + version + " REQUIRED COMPONENTS "@ + components + ")\n"@)
            &&& contains(t, bundle)
            &&& contains(t, pch)
            &&& contains(t, cuteui)
        }),
{
    let q1 = "add_executable("@ + stem + "\n"@ + qrc + "    generated/"@ + stem + ".cpp\n"@ + ")\n"@;
    let q2 = "target_link_libraries("@ + stem + " PRIVATE "@ + libs + links + ")\n"@;
    let q3 = "find_package(Qt6"@ + version + " REQUIRED COMPONENTS "@ + components + ")\n"@;
    let p1 = "cmake_minimum_required(VERSION 3.21)\n"@ + "project("@ + stem + " CXX)\n"@ + "\n"@
        + "set(CMAKE_CXX_STANDARD 20)\n"@ + "set(CMAKE_CXX_STANDARD_REQUIRED ON)\n"@
        + "# cutec emits the qt_create_metaobjectdata<Tag> template specialization\n"@
        + "# itself (Qt 6.9+ moc-output form). AUTORCC packages embedded resources.\n"@
        + "set(CMAKE_AUTOMOC OFF)\n"@ + "set(CMAKE_AUTORCC ON)\n"@ + "\n"@ + "find_package(Qt6"@
        + version + " REQUIRED COMPONENTS "@ + components + ")\n"@ + cuteui + packages + "\n"@
        + "\n"@;
    let p2 = "cmake_minimum_required(VERSION 3.21)\n"@ + "project("@ + stem + " CXX)\n"@ + "\n"@
        + "set(CMAKE_CXX_STANDARD 20)\n"@ + "set(CMAKE_CXX_STANDARD_REQUIRED ON)\n"@
        + "# cutec emits the qt_create_metaobjectdata<Tag> template specialization\n"@
        + "# itself (Qt 6.9+ moc-output form). AUTORCC packages embedded resources.\n"@
        + "set(CMAKE_AUTOMOC OFF)\n"@ + "set(CMAKE_AUTORCC ON)\n"@ + "\n"@ + "find_package(Qt6"@
        + version + " REQUIRED COMPONENTS "@ + components + ")\n"@ + cuteui + packages + "\n"@
        + "\n"@ + "add_executable("@ + stem + "\n"@ + qrc + "    generated/"@ + stem + ".cpp\n"@
        + ")\n"@ + "\n"@ + bundle + "\n"@ + "target_include_directories("@ + stem + " PRIVATE\n"@
        + "    generated\n"@ + "    runtime/cpp\n"@ + ")\n"@ + "\n"@;
    let p3 = "cmake_minimum_required(VERSION 3.21)\n"@ + "project("@ + stem + " CXX)\n"@ + "\n"@
        + "set(CMAKE_CXX_STANDARD 20)\n"@ + "set(CMAKE_CXX_STANDARD_REQUIRED ON)\n"@
        + "# cutec emits the qt_create_metaobjectdata<Tag> template specialization\n"@
        + "# itself (Qt 6.9+ moc-output form). AUTORCC packages embedded resources.\n"@
        + "set(CMAKE_AUTOMOC OFF)\n"@ + "set(CMAKE_AUTORCC ON)\n"@ + "\n"@;
    assert(p1 + "add_executable("@ + stem + "\n"@ + qrc + "    generated/"@ + stem + ".cpp\n"@
        + ")\n"@ =~= p1 + q1);
    assert(p2 + "target_link_libraries("@ + stem + " PRIVATE "@ + libs + links + ")\n"@ =~= p2 + q2);
    assert(p3 + "find_package(Qt6"@ + version + " REQUIRED COMPONENTS "@ + components + ")\n"@ =~= p3 + q3);
    lemma_contains_self(q1);
    lemma_contains_self(q2);
    lemma_contains_self(q3);
    lemma_contains_self(bundle);
    lemma_contains_self(pch);
    lemma_contains_self(cuteui);
    assert forall|a: Seq<char>, b: Seq<char>, q: Seq<char>| contains(a, q) || contains(b, q) implies
        #[trigger] contains(a + b, q) by {
        lemma_contains_add(a, b, q);
    }
}

#[verifier::rlimit(40)]
proof fn lemma_source_block(stem: Seq<char>, mode: BuildMode)
    ensures
        source_list(
            stem,
            if mode == BuildMode::Qml {
                seq!["qml.qrc"@]
            } else {
                Seq::empty()
            },
        ) == "add_executable("@ + stem + "\n"@ + qrc_line(mode) + "    generated/"@ + stem
            + ".cpp\n"@ + ")\n"@,
{
    reveal_strlit("");
    reveal_strlit("qml.qrc");
    reveal_strlit("    ");
    reveal_strlit("generated/");
    reveal_strlit("    generated/");
    reveal_strlit(".cpp");
    reveal_strlit(".cpp\n");
    reveal_strlit("\n");
    let r = if mode == BuildMode::Qml {
        seq!["qml.qrc"@]
    } else {
        Seq::<Seq<char>>::empty()
    };
    let f = "generated/"@ + stem + ".cpp"@;
    let parts = wrapped(r.push(f), "    "@, "\n"@);
    let line = "    generated/"@ + stem + ".cpp\n"@;
    assert("    "@ + f + "\n"@ =~= line);
    if mode == BuildMode::Qml {
        assert(parts =~= seq!["    "@ + "qml.qrc"@ + "\n"@, line]);
        assert(parts.drop_last() =~= seq!["    "@ + "qml.qrc"@ + "\n"@]);
        assert(join(parts.drop_last(), ""@) == "    "@ + "qml.qrc"@ + "\n"@);
        assert(join(parts, ""@) =~= qrc_line(mode) + line);
    } else {
        assert(parts =~= seq![line]);
        assert(join(parts, ""@) =~= qrc_line(mode) + line);
    }
    let q = qrc_line(mode);
    let h = "add_executable("@ + stem + "\n"@;
    assert(h + (q + line) =~= h + q + line);
    assert(h + q + line =~= h + q + "    generated/"@ + stem + ".cpp\n"@);
}

/// The sources of a program are the generated code and, of a QML program, the
/// resource file before it.
pub proof fn law_sources_are_listed(
    stem: Seq<char>,
    mode: BuildMode,
    manifest: Manifest,
    pch: bool,
    bundle: Option<Seq<Seq<char>>>,
    components: Seq<Seq<char>>,
    libs: Seq<Seq<char>>,
    headers: Seq<Seq<char>>,
    rpaths: Seq<Seq<char>>,
)
    ensures
        contains(
            cmake_text(stem, mode, manifest, pch, bundle, components, libs, headers, rpaths),
            source_list(
                stem,
                if mode == BuildMode::Qml {
                    seq!["qml.qrc"@]
                } else {
                    Seq::empty()
                },
            ),
        ),
{
    lemma_project_blocks(
        stem,
        version_words(mode),
        with_extras(mode_components(mode), components),
        cuteui_line(mode),
        manifest_packages(manifest),
        qrc_line(mode),
        bundle_block(stem, bundle, rpaths),
        with_extras(mode_libs(mode), libs),
        manifest_links(manifest),
        if pch {
            pch_block_text(stem, pch_list(mode, headers))
        } else {
            ""@
        },
    );
    lemma_source_block(stem, mode);
}

/// A program links the library of every component of its mode and every library
/// that it needs besides, and then those of the manifest.
pub proof fn law_libraries_are_linked(
    stem: Seq<char>,
    mode: BuildMode,
    manifest: Manifest,
    pch: bool,
    bundle: Option<Seq<Seq<char>>>,
    components: Seq<Seq<char>>,
    libs: Seq<Seq<char>>,
    headers: Seq<Seq<char>>,
    rpaths: Seq<Seq<char>>,
    i: int,
)
    ensures
        exists|all: Seq<Seq<char>>| #![trigger link_line(stem, all, manifest_links(manifest))]
            contains(cmake_text(stem, mode, manifest, pch, bundle, components, libs, headers, rpaths), link_line(stem, all, manifest_links(manifest))) && (0 <= i
                < words(mode_libs(mode)).len() ==> all.contains(words(mode_libs(mode))[i])) && (0
                <= i < libs.len() ==> all.contains(libs[i])),
{
    lemma_project_blocks(
        stem,
        version_words(mode),
        with_extras(mode_components(mode), components),
        cuteui_line(mode),
        manifest_packages(manifest),
        qrc_line(mode),
        bundle_block(stem, bundle, rpaths),
        with_extras(mode_libs(mode), libs),
        manifest_links(manifest),
        if pch {
            pch_block_text(stem, pch_list(mode, headers))
        } else {
            ""@
        },
    );
    let all = all_added(words(mode_libs(mode)), libs, libs.len() as int);
    if 0 <= i < words(mode_libs(mode)).len() {
        lemma_added_keeps(words(mode_libs(mode)), libs, libs.len() as int, words(mode_libs(mode))[i]);
    }
    if 0 <= i < libs.len() {
        lemma_added_has(words(mode_libs(mode)), libs, libs.len() as int, i);
    }
    assert(link_line(stem, all, manifest_links(manifest)) == "target_link_libraries("@ + stem
        + " PRIVATE "@ + with_extras(mode_libs(mode), libs) + manifest_links(manifest) + ")\n"@);
}

/// A program looks for every Qt component of its mode and for every one that it
/// needs besides, in the version that the mode needs, and the CuteUI mode for its
/// runtime too.
pub proof fn law_components_are_found(
    stem: Seq<char>,
    mode: BuildMode,
    manifest: Manifest,
    pch: bool,
    bundle: Option<Seq<Seq<char>>>,
    components: Seq<Seq<char>>,
    libs: Seq<Seq<char>>,
    headers: Seq<Seq<char>>,
    rpaths: Seq<Seq<char>>,
    i: int,
)
    ensures
        exists|all: Seq<Seq<char>>, version: Seq<char>| #![trigger qt_line(version, all)]
            contains(cmake_text(stem, mode, manifest, pch, bundle, components, libs, headers, rpaths), qt_line(version, all)) && version == (match min_version(mode) {
                Some(v) => " "@ + v,
                None => ""@,
            }) && (0 <= i < words(mode_components(mode)).len() ==> all.contains(
                words(mode_components(mode))[i],
            )) && (0 <= i < components.len() ==> all.contains(components[i])),
        mode == BuildMode::CuteUi ==> contains(
            cmake_text(stem, mode, manifest, pch, bundle, components, libs, headers, rpaths),
            "find_package(CuteUI REQUIRED)\n"@,
        ),
        mode == BuildMode::CuteUi <==> min_version(mode) is Some,
{
    lemma_project_blocks(
        stem,
        version_words(mode),
        with_extras(mode_components(mode), components),
        cuteui_line(mode),
        manifest_packages(manifest),
        qrc_line(mode),
        bundle_block(stem, bundle, rpaths),
        with_extras(mode_libs(mode), libs),
        manifest_links(manifest),
        if pch {
            pch_block_text(stem, pch_list(mode, headers))
        } else {
            ""@
        },
    );
    let all = all_added(words(mode_components(mode)), components, components.len() as int);
    if 0 <= i < words(mode_components(mode)).len() {
        lemma_added_keeps(
            words(mode_components(mode)),
            components,
            components.len() as int,
            words(mode_components(mode))[i],
        );
    }
    if 0 <= i < components.len() {
        lemma_added_has(words(mode_components(mode)), components, components.len() as int, i);
    }
    let version = match min_version(mode) {
        Some(v) => " "@ + v,
        None => ""@,
    };
    reveal_strlit(" 6.11");
    reveal_strlit("6.11");
    reveal_strlit(" ");
    assert(version =~= version_words(mode));
    assert(qt_line(version, all) == "find_package(Qt6"@ + version_words(mode)
        + " REQUIRED COMPONENTS "@ + with_extras(mode_components(mode), components) + ")\n"@);
}

/// Where headers are precompiled, every one of the mode and every further one is
/// listed, between quotes.
#[verifier::rlimit(40)]
pub proof fn law_headers_are_precompiled(
    stem: Seq<char>,
    mode: BuildMode,
    manifest: Manifest,
    pch: bool,
    bundle: Option<Seq<Seq<char>>>,
    components: Seq<Seq<char>>,
    libs: Seq<Seq<char>>,
    headers: Seq<Seq<char>>,
    rpaths: Seq<Seq<char>>,
    i: int,
)
    requires
        pch,
    ensures
        contains(
            cmake_text(stem, mode, manifest, pch, bundle, components, libs, headers, rpaths),
            "target_precompile_headers("@ + stem + " PRIVATE\n"@,
        ),
        0 <= i < words(mode_pch(mode)).len() ==> contains(
            cmake_text(stem, mode, manifest, pch, bundle, components, libs, headers, rpaths),
            "    \""@ + words(mode_pch(mode))[i] + "\""@,
        ),
        0 <= i < headers.len() ==> contains(
            cmake_text(stem, mode, manifest, pch, bundle, components, libs, headers, rpaths),
            "    \""@ + headers[i] + "\""@,
        ),
{
    lemma_project_blocks(
        stem,
        version_words(mode),
        with_extras(mode_components(mode), components),
        cuteui_line(mode),
        manifest_packages(manifest),
        qrc_line(mode),
        bundle_block(stem, bundle, rpaths),
        with_extras(mode_libs(mode), libs),
        manifest_links(manifest),
        if pch {
            pch_block_text(stem, pch_list(mode, headers))
        } else {
            ""@
        },
    );
    let all = all_added(words(mode_pch(mode)), headers, headers.len() as int);
    let quoted = wrapped(all, "    \""@, "\""@);
    let list = join(quoted, "\n"@);
    let block = pch_block_text(stem, list);
    let t = cmake_text(stem, mode, manifest, pch, bundle, components, libs, headers, rpaths);
    assert(contains(t, block));
    let q = "target_precompile_headers("@ + stem + " PRIVATE\n"@;
    let head = "\n"@ + "# Precompile the Qt umbrella headers — they dominate compile\n"@
        + "# time on Qt projects and rarely change. Disable with CUTE_NO_PCH=1.\n"@;
    assert(head + "target_precompile_headers("@ + stem + " PRIVATE\n"@ =~= head + q);
    lemma_contains_self(q);
    assert forall|a: Seq<char>, b: Seq<char>, x: Seq<char>| contains(a, x) || contains(b, x) implies
        #[trigger] contains(a + b, x) by {
        lemma_contains_add(a, b, x);
    }
    assert(contains(block, q));
    lemma_contains_trans(t, block, q);
    if 0 <= i < words(mode_pch(mode)).len() {
        let w = words(mode_pch(mode))[i];
        lemma_added_keeps(words(mode_pch(mode)), headers, headers.len() as int, w);
        let k = choose|k: int| 0 <= k < all.len() && all[k] == w;
        assert(quoted[k] == "    \""@ + w + "\""@);
        lemma_contains_join(quoted, "\n"@, k);
        assert(contains(block, quoted[k]));
        lemma_contains_trans(t, block, quoted[k]);
    }
    if 0 <= i < headers.len() {
        lemma_added_has(words(mode_pch(mode)), headers, headers.len() as int, i);
        let k = choose|k: int| 0 <= k < all.len() && all[k] == headers[i];
        assert(quoted[k] == "    \""@ + headers[i] + "\""@);
        lemma_contains_join(quoted, "\n"@, k);
        assert(contains(block, quoted[k]));
        lemma_contains_trans(t, block, quoted[k]);
    }
}

proof fn lemma_contains_trans(t: Seq<char>, b: Seq<char>, q: Seq<char>)
    requires
        contains(t, b),
        contains(b, q),
    ensures
        contains(t, q),
{
    let i = choose|i: int| matches_at(t, b, i);
    let j = choose|j: int| matches_at(b, q, j);
    assert(t.subrange(i + j, i + j + q.len()) =~= b.subrange(j, j + q.len())) by {
        assert forall|k: int| 0 <= k < q.len() implies #[trigger] t.subrange(i + j, i + j + q.len())[k]
            == b.subrange(j, j + q.len())[k] by {
            assert(t.subrange(i, i + b.len())[j + k] == b[j + k]);
        }
    }
    assert(matches_at(t, q, i + j));
}

#[verifier::rlimit(40)]
proof fn lemma_flat_block(stem: Seq<char>, rpaths: Seq<Seq<char>>)
    ensures
        contains(
            bundle_block(stem, None, rpaths),
            "set_target_properties("@ + stem + " PROPERTIES MACOSX_BUNDLE FALSE)\n"@,
        ),
        rpaths.len() > 0 ==> contains(
            bundle_block(stem, None, rpaths),
            "    INSTALL_RPATH \""@ + join(rpaths, ";"@) + "\"\n"@,
        ),
{
    let block = bundle_block(stem, None, rpaths);
    let q = "set_target_properties("@ + stem + " PROPERTIES MACOSX_BUNDLE FALSE)\n"@;
    let p = "# Plain CLI binary (not a .app bundle), so users get `./"@ + stem
        + "` directly.\n"@;
    let rest = if rpaths.len() == 0 {
        ""@
    } else {
        crate::cmake::rpath_block_text(stem, join(rpaths, ";"@))
    };
    assert(block =~= p + q + rest);
    lemma_contains_self(q);
    lemma_contains_add(p, q, q);
    lemma_contains_add(p + q, rest, q);
    
    if rpaths.len() > 0 {
        let r = "    INSTALL_RPATH \""@ + join(rpaths, ";"@) + "\"\n"@;
        let a = "set_target_properties("@ + stem + " PROPERTIES\n"@;
        let z = "    BUILD_WITH_INSTALL_RPATH TRUE\n"@ + "    MACOSX_RPATH TRUE\n"@
            + ")\n"@;
        assert(rest =~= a + r + z);
        lemma_contains_self(r);
        lemma_contains_add(a, r, r);
        lemma_contains_add(a + r, z, r);
        lemma_contains_add(p + q, rest, r);
        
    }
}

#[verifier::rlimit(40)]
proof fn lemma_app_block(stem: Seq<char>, dirs: Seq<Seq<char>>, rpaths: Seq<Seq<char>>)
    ensures
        contains(
            bundle_block(stem, Some(dirs), rpaths),
            "set_target_properties("@ + stem + " PROPERTIES\n    MACOSX_BUNDLE TRUE\n"@,
        ),
        contains(
            bundle_block(stem, Some(dirs), rpaths),
            "    INSTALL_RPATH \""@ + join(
                seq!["@executable_path/../Frameworks"@] + dirs + rpaths,
                ";"@,
            ) + "\"\n"@,
        ),
{
    let block = bundle_block(stem, Some(dirs), rpaths);
    let paths = join(seq!["@executable_path/../Frameworks"@] + dirs + rpaths, ";"@);
    let q = "set_target_properties("@ + stem + " PROPERTIES\n    MACOSX_BUNDLE TRUE\n"@;
    let r = "    INSTALL_RPATH \""@ + paths + "\"\n"@;
    let a = "# Emit a `.app` bundle so the GUI binary is `open Foo.app`-able\n"@
        + "# without DYLD env. INSTALL_RPATH bakes in the linked Qt /\n"@
        + "# Kirigami framework dirs. Codesign + entitlements are\n"@
        + "# applied driver-side after the build (see finalize_bundle).\n"@;
    let m = "    MACOSX_BUNDLE_INFO_PLIST \"${CMAKE_SOURCE_DIR}/Info.plist\"\n"@;
    let z = "    BUILD_WITH_INSTALL_RPATH TRUE\n"@ + "    MACOSX_RPATH TRUE\n"@ + ")\n"@;
    assert(" PROPERTIES\n    MACOSX_BUNDLE TRUE\n"@ =~= " PROPERTIES\n"@
        + "    MACOSX_BUNDLE TRUE\n"@) by {
        reveal_strlit(" PROPERTIES\n    MACOSX_BUNDLE TRUE\n");
        reveal_strlit(" PROPERTIES\n");
        reveal_strlit("    MACOSX_BUNDLE TRUE\n");
    }
    assert(block =~= a + q + m + r + z);
    lemma_contains_self(q);
    lemma_contains_self(r);
    lemma_contains_add(a, q, q);
    lemma_contains_add(a + q, m, q);
    lemma_contains_add(a + q + m, r, q);
    lemma_contains_add(a + q + m + r, z, q);
    
    lemma_contains_add(a + q + m, r, r);
    lemma_contains_add(a + q + m + r, z, r);
    
}

/// A bundle is an application whose run paths are those of its own frameworks, of
/// Qt and of the libraries; any other program is no bundle and has the run paths
/// of the libraries.
pub proof fn law_run_paths_are_baked_in(
    stem: Seq<char>,
    mode: BuildMode,
    manifest: Manifest,
    pch: bool,
    bundle: Option<Seq<Seq<char>>>,
    components: Seq<Seq<char>>,
    libs: Seq<Seq<char>>,
    headers: Seq<Seq<char>>,
    rpaths: Seq<Seq<char>>,
)
    ensures
        bundle is None ==> contains(
            cmake_text(stem, mode, manifest, pch, bundle, components, libs, headers, rpaths),
            "set_target_properties("@ + stem + " PROPERTIES MACOSX_BUNDLE FALSE)\n"@,
        ),
        bundle is Some ==> contains(
            cmake_text(stem, mode, manifest, pch, bundle, components, libs, headers, rpaths),
            "set_target_properties("@ + stem + " PROPERTIES\n    MACOSX_BUNDLE TRUE\n"@,
        ) && contains(
            cmake_text(stem, mode, manifest, pch, bundle, components, libs, headers, rpaths),
            "    INSTALL_RPATH \""@ + join(
                seq!["@executable_path/../Frameworks"@] + bundle->0 + rpaths,
                ";"@,
            ) + "\"\n"@,
        ),
        bundle is None && rpaths.len() > 0 ==> contains(
            cmake_text(stem, mode, manifest, pch, bundle, components, libs, headers, rpaths),
            "    INSTALL_RPATH \""@ + join(rpaths, ";"@) + "\"\n"@,
        ),
{
    lemma_project_blocks(
        stem,
        version_words(mode),
        with_extras(mode_components(mode), components),
        cuteui_line(mode),
        manifest_packages(manifest),
        qrc_line(mode),
        bundle_block(stem, bundle, rpaths),
        with_extras(mode_libs(mode), libs),
        manifest_links(manifest),
        if pch {
            pch_block_text(stem, pch_list(mode, headers))
        } else {
            ""@
        },
    );
    let t = cmake_text(stem, mode, manifest, pch, bundle, components, libs, headers, rpaths);
    let block = bundle_block(stem, bundle, rpaths);
    assert(contains(t, block));
    match bundle {
        None => {
            lemma_flat_block(stem, rpaths);
            lemma_contains_trans(
                t,
                block,
                "set_target_properties("@ + stem + " PROPERTIES MACOSX_BUNDLE FALSE)\n"@,
            );
            if rpaths.len() > 0 {
                lemma_contains_trans(
                    t,
                    block,
                    "    INSTALL_RPATH \""@ + join(rpaths, ";"@) + "\"\n"@,
                );
            }
        },
        Some(dirs) => {
            lemma_app_block(stem, dirs, rpaths);
            lemma_contains_trans(
                t,
                block,
                "set_target_properties("@ + stem + " PROPERTIES\n    MACOSX_BUNDLE TRUE\n"@,
            );
            lemma_contains_trans(
                t,
                block,
                "    INSTALL_RPATH \""@ + join(
                    seq!["@executable_path/../Frameworks"@] + dirs + rpaths,
                    ";"@,
                ) + "\"\n"@,
            );
        },
    }
}

// ---- plans ---------------------------------------------------------------------------

/// Some planned file has this path and this text.
pub open spec fn is_planned(
    files: Seq<(Seq<char>, Seq<char>)>,
    path: Seq<char>,
    text: Seq<char>,
) -> bool {
    exists|i: int| 0 <= i < files.len() && #[trigger] files[i] == (path, text)
}

proof fn lemma_planned_push(
    files: Seq<(Seq<char>, Seq<char>)>,
    entry: (Seq<char>, Seq<char>),
    path: Seq<char>,
    text: Seq<char>,
)
    requires
        is_planned(files, path, text) || entry == (path, text),
    ensures
        is_planned(files.push(entry), path, text),
{
    if entry == (path, text) {
        assert(files.push(entry)[files.len() as int] == (path, text));
    } else {
        let i = choose|i: int| 0 <= i < files.len() && #[trigger] files[i] == (path, text);
        assert(files.push(entry)[i] == (path, text));
    }
}

proof fn lemma_planned_views(
    files: Seq<(Seq<char>, Seq<char>)>,
    v: Seq<crate::cmake::EmittedView>,
    n: int,
    path: Seq<char>,
    text: Seq<char>,
)
    requires
        0 <= n <= v.len(),
        is_planned(files, path, text) || exists|i: int|
            0 <= i < n && (#[trigger] v[i]).filename@ == path && v[i].qml@ == text,
    ensures
        is_planned(with_views(files, v, n), path, text),
    decreases n,
{
    if n > 0 {
        let entry = (v[n - 1].filename@, v[n - 1].qml@);
        if !(entry == (path, text)) {
            if !is_planned(files, path, text) {
                let i = choose|i: int|
                    0 <= i < n && (#[trigger] v[i]).filename@ == path && v[i].qml@ == text;
                assert(i < n - 1);
            }
            lemma_planned_views(files, v, n - 1, path, text);
        }
        lemma_planned_push(with_views(files, v, n - 1), entry, path, text);
    }
}

/// The plan of a QML program writes its views and a resource file that lists
/// each of them and the file that the program loads; the project that it writes
/// has that very resource file among its sources.
pub proof fn law_resources_are_built(
    stem: Seq<char>,
    emit: EmitResult,
    manifest: Manifest,
    host: HostFacts,
    sibling: Seq<char>,
    i: int,
)
    requires
        mode_of(emit.source@) == BuildMode::Qml,
    ensures
        exists|resource: Seq<char>, text: Seq<char>|
            #![trigger is_planned(planned_files(stem, emit, manifest, host, sibling), resource, text)]
            is_planned(planned_files(stem, emit, manifest, host, sibling), resource, text)
                && contains(planned_cmake(stem, emit, manifest, host), source_list(stem, seq![resource]))
                && contains(text, "<file>"@ + qml_name(emit.source@) + "</file>"@) && (0 <= i
                < emit.views@.len() ==> contains(
                text,
                "<file>"@ + emit.views@[i].filename@ + "</file>"@,
            )),
        is_planned(
            planned_files(stem, emit, manifest, host, sibling),
            "CMakeLists.txt"@,
            planned_cmake(stem, emit, manifest, host),
        ),
        0 <= i < emit.views@.len() ==> is_planned(
            planned_files(stem, emit, manifest, host, sibling),
            emit.views@[i].filename@,
            emit.views@[i].qml@,
        ),
{
    let cpp = crate::plan::scanned(emit);
    let mode = mode_of(emit.source@);
    law_sources_are_listed(
        stem,
        mode,
        manifest,
        host.pch,
        crate::plan::planned_bundle(mode, manifest, host),
        crate::modes::extra_list(cpp, seq!["Network"@], seq!["Gui"@, "Widgets"@]),
        crate::modes::extra_list(cpp, seq!["Qt6::Network"@], seq!["Qt6::Gui"@, "Qt6::Widgets"@]),
        crate::modes::extra_list(cpp, seq!["<QtNetwork>"@], seq!["<QSyntaxHighlighter>"@]),
        views(host.library_rpaths@),
    );
    let e = Seq::<Seq<char>>::empty();
    let name = qml_name(emit.source@);
    let generated = Seq::<(Seq<char>, Seq<char>)>::empty().push(
        ("generated/"@ + emit.header_filename@, crate::plan::final_header(emit)),
    ).push(("generated/"@ + emit.source_filename@, emit.source@));
    let a = with_views(generated, emit.views@, emit.views@.len() as int);
    let b = if crate::plan::needs_sibling(emit) {
        a.push((name, sibling))
    } else {
        a
    };
    let names = added(view_names(emit.views@), name);
    let files = crate::dict::sorted_list(names);
    let text = qrc_text(files);
    let c = b.push(("qml.qrc"@, text));
    let cm = planned_cmake(stem, emit, manifest, host);
    let d = c.push(("CMakeLists.txt"@, cm));
    let plist = ("Info.plist"@, crate::bundle::plist_text(stem, crate::bundle::env_block(e, e, e)));
    let ent = ("cute.entitlements"@, crate::bundle::entitlements());
    let all = planned_files(stem, emit, manifest, host, sibling);
    assert(c == crate::plan::with_qml(generated, emit, sibling));
    assert(all == d || all == d.push(plist).push(ent));
    lemma_planned_push(b, ("qml.qrc"@, text), "qml.qrc"@, text);
    lemma_planned_push(c, ("CMakeLists.txt"@, cm), "qml.qrc"@, text);
    lemma_planned_push(d, plist, "qml.qrc"@, text);
    lemma_planned_push(d.push(plist), ent, "qml.qrc"@, text);
    lemma_planned_push(c, ("CMakeLists.txt"@, cm), "CMakeLists.txt"@, cm);
    lemma_planned_push(d, plist, "CMakeLists.txt"@, cm);
    lemma_planned_push(d.push(plist), ent, "CMakeLists.txt"@, cm);
    crate::dict::law_lists_can_be_sorted(names);
    crate::plan::law_resources_are_complete(emit, files);
    lemma_qrc_lists(files, name);
    if 0 <= i < emit.views@.len() {
        let p = emit.views@[i].filename@;
        let q = emit.views@[i].qml@;
        lemma_qrc_lists(files, p);
        lemma_planned_views(generated, emit.views@, emit.views@.len() as int, p, q);
        lemma_planned_push(a, (name, sibling), p, q);
        lemma_planned_push(b, ("qml.qrc"@, text), p, q);
        lemma_planned_push(c, ("CMakeLists.txt"@, cm), p, q);
        lemma_planned_push(d, plist, p, q);
        lemma_planned_push(d.push(plist), ent, p, q);
    }
    assert(contains(cm, source_list(stem, seq!["qml.qrc"@])));
    assert(is_planned(all, "qml.qrc"@, text));
}

proof fn lemma_qrc_lines(s: Seq<char>, files: Seq<Seq<char>>, n: int, i: int)
    requires
        0 <= i < n <= files.len(),
    ensures
        contains(qrc_lines(s, files, n), "<file>"@ + files[i] + "</file>"@),
    decreases n,
{
    let q = "<file>"@ + files[i] + "</file>"@;
    let before = qrc_lines(s, files, n - 1);
    if i == n - 1 {
        let a = before + "        "@;
        let z = "\n"@;
        assert(qrc_lines(s, files, n) =~= a + q + z) by {
            reveal_strlit("        <file>");
            reveal_strlit("        ");
            reveal_strlit("<file>");
            reveal_strlit("</file>\n");
            reveal_strlit("</file>");
            reveal_strlit("\n");
        }
        lemma_contains_self(q);
        lemma_contains_add(a, q, q);
        lemma_contains_add(a + q, z, q);
    } else {
        lemma_qrc_lines(s, files, n - 1, i);
        lemma_contains_add(before, "        <file>"@, q);
        lemma_contains_add(before + "        <file>"@, files[n - 1], q);
        lemma_contains_add(before + "        <file>"@ + files[n - 1], "</file>\n"@, q);
    }
}

proof fn lemma_qrc_lists(files: Seq<Seq<char>>, f: Seq<char>)
    requires
        files.contains(f),
    ensures
        contains(qrc_text(files), "<file>"@ + f + "</file>"@),
{
    let i = choose|i: int| 0 <= i < files.len() && files[i] == f;
    let head = "<RCC>\n    <qresource prefix=\"/\">\n"@;
    lemma_qrc_lines(head, files, files.len() as int, i);
    lemma_contains_add(
        qrc_lines(head, files, files.len() as int),
        "    </qresource>\n</RCC>\n"@,
        "<file>"@ + f + "</file>"@,
    );
}

} // verus!
