//! Laws of the style-sheet shorthand.

use crate::ast::{Expr, ExprKind};
use crate::qss::{
    alignment, declarations, is_class_of, kebab, length_key, pseudo_of, pseudo_suffix, split_key,
    value_text, with_rule, QssBag, QssClass, QssPseudo,
};
use crate::text::{
    ascii_lower, ends_with, is_ascii_upper, join, lemma_index_of_unique, signed_decimal,
    starts_with,
};
use vstd::prelude::*;
use vstd::string::*;

verus! {

// ---- keys ---------------------------------------------------------------------------

/// The word names a pseudo-class.
pub open spec fn is_pseudo_word(w: Seq<char>) -> bool {
    w == "hover"@ || w == "pressed"@ || w == "focus"@ || w == "disabled"@ || w == "checked"@
}

proof fn lemma_pseudo_words(w: Seq<char>)
    ensures
        is_pseudo_word(w) <==> pseudo_of(w) is Some,
        is_pseudo_word(w) ==> pseudo_suffix(pseudo_of(w)->0) == ":"@ + w,
        is_pseudo_word(w) ==> !w.contains('.'),
        is_pseudo_word(w) ==> pseudo_of(w)->0 != QssPseudo::Base,
{
    reveal_strlit("hover");
    reveal_strlit("pressed");
    reveal_strlit("focus");
    reveal_strlit("disabled");
    reveal_strlit("checked");
    reveal_strlit(":hover");
    reveal_strlit(":pressed");
    reveal_strlit(":focus");
    reveal_strlit(":disabled");
    reveal_strlit(":checked");
    reveal_strlit(":");
    if w == "hover"@ {
        assert(":hover"@ =~= ":"@ + "hover"@);
        assert forall|i: int| 0 <= i < w.len() implies w[i] != '.' by {
            assert(i == 0 || i == 1 || i == 2 || i == 3 || i == 4);
        }
    }
    if w == "pressed"@ {
        assert("pressed"@.len() != "hover"@.len());
        assert(":pressed"@ =~= ":"@ + "pressed"@);
        assert forall|i: int| 0 <= i < w.len() implies w[i] != '.' by {
            assert(i == 0 || i == 1 || i == 2 || i == 3 || i == 4 || i == 5 || i == 6);
        }
    }
    if w == "focus"@ {
        assert("focus"@[0] != "hover"@[0]);
        assert("focus"@.len() != "pressed"@.len());
        assert(":focus"@ =~= ":"@ + "focus"@);
        assert forall|i: int| 0 <= i < w.len() implies w[i] != '.' by {
            assert(i == 0 || i == 1 || i == 2 || i == 3 || i == 4);
        }
    }
    if w == "disabled"@ {
        assert("disabled"@.len() != "hover"@.len());
        assert("disabled"@.len() != "pressed"@.len());
        assert("disabled"@.len() != "focus"@.len());
        assert(":disabled"@ =~= ":"@ + "disabled"@);
        assert forall|i: int| 0 <= i < w.len() implies w[i] != '.' by {
            assert(i == 0 || i == 1 || i == 2 || i == 3 || i == 4 || i == 5 || i == 6 || i == 7);
        }
    }
    if w == "checked"@ {
        assert("checked"@.len() != "hover"@.len());
        assert("checked"@[0] != "pressed"@[0]);
        assert("checked"@.len() != "focus"@.len());
        assert("checked"@.len() != "disabled"@.len());
        assert(":checked"@ =~= ":"@ + "checked"@);
        assert forall|i: int| 0 <= i < w.len() implies w[i] != '.' by {
            assert(i == 0 || i == 1 || i == 2 || i == 3 || i == 4 || i == 5 || i == 6);
        }
    }
}

proof fn lemma_split_prefixed(w: Seq<char>, key: Seq<char>)
    requires
        !w.contains('.'),
    ensures
        split_key(w + "."@ + key) == match pseudo_of(w) {
            Some(p) => Some((p, key)),
            None => None,
        },
{
    reveal_strlit(".");
    let s = w + "."@ + key;
    let i = w.len() as int;
    assert forall|j: int| 0 <= j < i implies s[j] != '.' by {
        assert(s[j] == w[j]);
        assert(w.contains(w[j]));
    }
    assert(s[i] == '.');
    lemma_index_of_unique(s, '.', i);
    assert(s.subrange(0, i) =~= w);
    assert(s.subrange(i + 1, s.len() as int) =~= key);
}

proof fn lemma_split_plain(key: Seq<char>)
    requires
        !key.contains('.'),
    ensures
        split_key(key) == Some((QssPseudo::Base, key)),
{
    assert forall|j: int| 0 <= j < key.len() implies key[j] != '.' by {
        assert(key.contains(key[j]));
    }
    lemma_index_of_unique(key, '.', key.len() as int);
}

/// A pseudo-class before a key decides the bucket alone: the key is a shorthand
/// exactly where it is one by itself, for the same property and with the same
/// value. The bucket is the one whose selector ends in the word.
pub proof fn law_prefixes_decide_the_bucket(
    w: Seq<char>,
    key: Seq<char>,
    value: Expr,
    with_prefix: QssClass,
    alone: QssClass,
)
    requires
        is_pseudo_word(w),
        !key.contains('.'),
        is_class_of(w + "."@ + key, value, with_prefix),
        is_class_of(key, value, alone),
    ensures
        match (with_prefix, alone) {
            (QssClass::Shorthand(p, k, v), QssClass::Shorthand(q, l, u)) => {
                &&& pseudo_suffix(p) == ":"@ + w
                &&& q == QssPseudo::Base
                &&& k@ == l@
                &&& v@ == u@
            },
            (QssClass::Passthrough, QssClass::Passthrough) => true,
            _ => false,
        },
{
    lemma_pseudo_words(w);
    lemma_split_prefixed(w, key);
    lemma_split_plain(key);
}

/// A key behind any other word is an ordinary property, whatever its value.
pub proof fn law_other_prefixes_pass(w: Seq<char>, key: Seq<char>, value: Expr, r: QssClass)
    requires
        !w.contains('.'),
        !is_pseudo_word(w),
        is_class_of(w + "."@ + key, value, r),
    ensures
        r is Passthrough,
{
    lemma_pseudo_words(w);
    lemma_split_prefixed(w, key);
}

/// The style-sheet property of a key is the key with a dash before its upper-case
/// letter, which is then lower-case; only `textAlign` is a property of Qt's.
pub proof fn law_properties_are_dashed_keys(key: Seq<char>, i: int)
    requires
        kebab(key) is Some,
        key != "textAlign"@,
    ensures
        0 <= i < key.len() && is_ascii_upper(key[i]) ==> kebab(key)->0 == key.take(i) + seq![
            '-',
            ascii_lower(key[i]),
        ] + key.skip(i + 1),
        (forall|j: int| 0 <= j < key.len() ==> !is_ascii_upper(#[trigger] key[j])) ==> kebab(key)->0
            == key,
{
    reveal_strlit("textAlign");
    reveal_strlit("color");
    reveal_strlit("background");
    reveal_strlit("backgroundColor");
    reveal_strlit("border");
    reveal_strlit("borderRadius");
    reveal_strlit("borderColor");
    reveal_strlit("borderWidth");
    reveal_strlit("borderStyle");
    reveal_strlit("fontSize");
    reveal_strlit("fontWeight");
    reveal_strlit("fontFamily");
    reveal_strlit("fontStyle");
    reveal_strlit("padding");
    reveal_strlit("paddingLeft");
    reveal_strlit("paddingRight");
    reveal_strlit("paddingTop");
    reveal_strlit("paddingBottom");
    reveal_strlit("margin");
    reveal_strlit("marginLeft");
    reveal_strlit("marginRight");
    reveal_strlit("marginTop");
    reveal_strlit("marginBottom");
    reveal_strlit("background-color");
    reveal_strlit("border-color");
    reveal_strlit("border-radius");
    reveal_strlit("border-style");
    reveal_strlit("border-width");
    reveal_strlit("font-family");
    reveal_strlit("font-size");
    reveal_strlit("font-style");
    reveal_strlit("font-weight");
    reveal_strlit("margin-bottom");
    reveal_strlit("margin-left");
    reveal_strlit("margin-right");
    reveal_strlit("margin-top");
    reveal_strlit("padding-bottom");
    reveal_strlit("padding-left");
    reveal_strlit("padding-right");
    reveal_strlit("padding-top");
    if key == "color"@ {
        if 0 <= i < key.len() && is_ascii_upper(key[i]) {
            assert(i == 0 || i == 1 || i == 2 || i == 3 || i == 4);
        }
    }
    if key == "background"@ {
        assert("background"@.len() != "color"@.len());
        if 0 <= i < key.len() && is_ascii_upper(key[i]) {
            assert(i == 0 || i == 1 || i == 2 || i == 3 || i == 4 || i == 5 || i == 6 || i == 7
                || i == 8 || i == 9);
        }
    }
    if key == "backgroundColor"@ {
        assert("backgroundColor"@.len() != "color"@.len());
        assert("backgroundColor"@.len() != "background"@.len());
        assert(key[10] == 'C');
        if 0 <= i < key.len() && is_ascii_upper(key[i]) {
            assert(i == 0 || i == 1 || i == 2 || i == 3 || i == 4 || i == 5 || i == 6 || i == 7
                || i == 8 || i == 9 || i == 10 || i == 11 || i == 12 || i == 13 || i == 14);
            assert(i == 10);
            assert("background-color"@ =~= key.take(10) + seq!['-', 'c'] + key.skip(11));
        }
    }
    if key == "border"@ {
        assert("border"@.len() != "color"@.len());
        assert("border"@.len() != "background"@.len());
        assert("border"@.len() != "backgroundColor"@.len());
        if 0 <= i < key.len() && is_ascii_upper(key[i]) {
            assert(i == 0 || i == 1 || i == 2 || i == 3 || i == 4 || i == 5);
        }
    }
    if key == "borderRadius"@ {
        assert("borderRadius"@.len() != "color"@.len());
        assert("borderRadius"@.len() != "background"@.len());
        assert("borderRadius"@.len() != "backgroundColor"@.len());
        assert("borderRadius"@.len() != "border"@.len());
        assert(key[6] == 'R');
        if 0 <= i < key.len() && is_ascii_upper(key[i]) {
            assert(i == 0 || i == 1 || i == 2 || i == 3 || i == 4 || i == 5 || i == 6 || i == 7
                || i == 8 || i == 9 || i == 10 || i == 11);
            assert(i == 6);
            assert("border-radius"@ =~= key.take(6) + seq!['-', 'r'] + key.skip(7));
        }
    }
    if key == "borderColor"@ {
        assert("borderColor"@.len() != "color"@.len());
        assert("borderColor"@.len() != "background"@.len());
        assert("borderColor"@.len() != "backgroundColor"@.len());
        assert("borderColor"@.len() != "border"@.len());
        assert("borderColor"@.len() != "borderRadius"@.len());
        assert(key[6] == 'C');
        if 0 <= i < key.len() && is_ascii_upper(key[i]) {
            assert(i == 0 || i == 1 || i == 2 || i == 3 || i == 4 || i == 5 || i == 6 || i == 7
                || i == 8 || i == 9 || i == 10);
            assert(i == 6);
            assert("border-color"@ =~= key.take(6) + seq!['-', 'c'] + key.skip(7));
        }
    }
    if key == "borderWidth"@ {
        assert("borderWidth"@.len() != "color"@.len());
        assert("borderWidth"@.len() != "background"@.len());
        assert("borderWidth"@.len() != "backgroundColor"@.len());
        assert("borderWidth"@.len() != "border"@.len());
        assert("borderWidth"@.len() != "borderRadius"@.len());
        assert("borderWidth"@[6] != "borderColor"@[6]);
        assert(key[6] == 'W');
        if 0 <= i < key.len() && is_ascii_upper(key[i]) {
            assert(i == 0 || i == 1 || i == 2 || i == 3 || i == 4 || i == 5 || i == 6 || i == 7
                || i == 8 || i == 9 || i == 10);
            assert(i == 6);
            assert("border-width"@ =~= key.take(6) + seq!['-', 'w'] + key.skip(7));
        }
    }
    if key == "borderStyle"@ {
        assert("borderStyle"@.len() != "color"@.len());
        assert("borderStyle"@.len() != "background"@.len());
        assert("borderStyle"@.len() != "backgroundColor"@.len());
        assert("borderStyle"@.len() != "border"@.len());
        assert("borderStyle"@.len() != "borderRadius"@.len());
        assert("borderStyle"@[6] != "borderColor"@[6]);
        assert("borderStyle"@[6] != "borderWidth"@[6]);
        assert(key[6] == 'S');
        if 0 <= i < key.len() && is_ascii_upper(key[i]) {
            assert(i == 0 || i == 1 || i == 2 || i == 3 || i == 4 || i == 5 || i == 6 || i == 7
                || i == 8 || i == 9 || i == 10);
            assert(i == 6);
            assert("border-style"@ =~= key.take(6) + seq!['-', 's'] + key.skip(7));
        }
    }
    if key == "fontSize"@ {
        assert("fontSize"@.len() != "color"@.len());
        assert("fontSize"@.len() != "background"@.len());
        assert("fontSize"@.len() != "backgroundColor"@.len());
        assert("fontSize"@.len() != "border"@.len());
        assert("fontSize"@.len() != "borderRadius"@.len());
        assert("fontSize"@.len() != "borderColor"@.len());
        assert("fontSize"@.len() != "borderWidth"@.len());
        assert("fontSize"@.len() != "borderStyle"@.len());
        assert(key[4] == 'S');
        if 0 <= i < key.len() && is_ascii_upper(key[i]) {
            assert(i == 0 || i == 1 || i == 2 || i == 3 || i == 4 || i == 5 || i == 6 || i == 7);
            assert(i == 4);
            assert("font-size"@ =~= key.take(4) + seq!['-', 's'] + key.skip(5));
        }
    }
    if key == "fontWeight"@ {
        assert("fontWeight"@.len() != "color"@.len());
        assert("fontWeight"@[0] != "background"@[0]);
        assert("fontWeight"@.len() != "backgroundColor"@.len());
        assert("fontWeight"@.len() != "border"@.len());
        assert("fontWeight"@.len() != "borderRadius"@.len());
        assert("fontWeight"@.len() != "borderColor"@.len());
        assert("fontWeight"@.len() != "borderWidth"@.len());
        assert("fontWeight"@.len() != "borderStyle"@.len());
        assert("fontWeight"@.len() != "fontSize"@.len());
        assert(key[4] == 'W');
        if 0 <= i < key.len() && is_ascii_upper(key[i]) {
            assert(i == 0 || i == 1 || i == 2 || i == 3 || i == 4 || i == 5 || i == 6 || i == 7
                || i == 8 || i == 9);
            assert(i == 4);
            assert("font-weight"@ =~= key.take(4) + seq!['-', 'w'] + key.skip(5));
        }
    }
    if key == "fontFamily"@ {
        assert("fontFamily"@.len() != "color"@.len());
        assert("fontFamily"@[0] != "background"@[0]);
        assert("fontFamily"@.len() != "backgroundColor"@.len());
        assert("fontFamily"@.len() != "border"@.len());
        assert("fontFamily"@.len() != "borderRadius"@.len());
        assert("fontFamily"@.len() != "borderColor"@.len());
        assert("fontFamily"@.len() != "borderWidth"@.len());
        assert("fontFamily"@.len() != "borderStyle"@.len());
        assert("fontFamily"@.len() != "fontSize"@.len());
        assert("fontFamily"@[4] != "fontWeight"@[4]);
        assert(key[4] == 'F');
        if 0 <= i < key.len() && is_ascii_upper(key[i]) {
            assert(i == 0 || i == 1 || i == 2 || i == 3 || i == 4 || i == 5 || i == 6 || i == 7
                || i == 8 || i == 9);
            assert(i == 4);
            assert("font-family"@ =~= key.take(4) + seq!['-', 'f'] + key.skip(5));
        }
    }
    if key == "fontStyle"@ {
        assert("fontStyle"@.len() != "color"@.len());
        assert("fontStyle"@.len() != "background"@.len());
        assert("fontStyle"@.len() != "backgroundColor"@.len());
        assert("fontStyle"@.len() != "border"@.len());
        assert("fontStyle"@.len() != "borderRadius"@.len());
        assert("fontStyle"@.len() != "borderColor"@.len());
        assert("fontStyle"@.len() != "borderWidth"@.len());
        assert("fontStyle"@.len() != "borderStyle"@.len());
        assert("fontStyle"@.len() != "fontSize"@.len());
        assert("fontStyle"@.len() != "fontWeight"@.len());
        assert("fontStyle"@.len() != "fontFamily"@.len());
        assert(key[4] == 'S');
        if 0 <= i < key.len() && is_ascii_upper(key[i]) {
            assert(i == 0 || i == 1 || i == 2 || i == 3 || i == 4 || i == 5 || i == 6 || i == 7 || i == 8);
            assert(i == 4);
            assert("font-style"@ =~= key.take(4) + seq!['-', 's'] + key.skip(5));
        }
    }
    if key == "padding"@ {
        assert("padding"@.len() != "color"@.len());
        assert("padding"@.len() != "background"@.len());
        assert("padding"@.len() != "backgroundColor"@.len());
        assert("padding"@.len() != "border"@.len());
        assert("padding"@.len() != "borderRadius"@.len());
        assert("padding"@.len() != "borderColor"@.len());
        assert("padding"@.len() != "borderWidth"@.len());
        assert("padding"@.len() != "borderStyle"@.len());
        assert("padding"@.len() != "fontSize"@.len());
        assert("padding"@.len() != "fontWeight"@.len());
        assert("padding"@.len() != "fontFamily"@.len());
        assert("padding"@.len() != "fontStyle"@.len());
        if 0 <= i < key.len() && is_ascii_upper(key[i]) {
            assert(i == 0 || i == 1 || i == 2 || i == 3 || i == 4 || i == 5 || i == 6);
        }
    }
    if key == "paddingLeft"@ {
        assert("paddingLeft"@.len() != "color"@.len());
        assert("paddingLeft"@.len() != "background"@.len());
        assert("paddingLeft"@.len() != "backgroundColor"@.len());
        assert("paddingLeft"@.len() != "border"@.len());
        assert("paddingLeft"@.len() != "borderRadius"@.len());
        assert("paddingLeft"@[0] != "borderColor"@[0]);
        assert("paddingLeft"@[0] != "borderWidth"@[0]);
        assert("paddingLeft"@[0] != "borderStyle"@[0]);
        assert("paddingLeft"@.len() != "fontSize"@.len());
        assert("paddingLeft"@.len() != "fontWeight"@.len());
        assert("paddingLeft"@.len() != "fontFamily"@.len());
        assert("paddingLeft"@.len() != "fontStyle"@.len());
        assert("paddingLeft"@.len() != "padding"@.len());
        assert(key[7] == 'L');
        if 0 <= i < key.len() && is_ascii_upper(key[i]) {
            assert(i == 0 || i == 1 || i == 2 || i == 3 || i == 4 || i == 5 || i == 6 || i == 7
                || i == 8 || i == 9 || i == 10);
            assert(i == 7);
            assert("padding-left"@ =~= key.take(7) + seq!['-', 'l'] + key.skip(8));
        }
    }
    if key == "paddingRight"@ {
        assert("paddingRight"@.len() != "color"@.len());
        assert("paddingRight"@.len() != "background"@.len());
        assert("paddingRight"@.len() != "backgroundColor"@.len());
        assert("paddingRight"@.len() != "border"@.len());
        assert("paddingRight"@[0] != "borderRadius"@[0]);
        assert("paddingRight"@.len() != "borderColor"@.len());
        assert("paddingRight"@.len() != "borderWidth"@.len());
        assert("paddingRight"@.len() != "borderStyle"@.len());
        assert("paddingRight"@.len() != "fontSize"@.len());
        assert("paddingRight"@.len() != "fontWeight"@.len());
        assert("paddingRight"@.len() != "fontFamily"@.len());
        assert("paddingRight"@.len() != "fontStyle"@.len());
        assert("paddingRight"@.len() != "padding"@.len());
        assert("paddingRight"@.len() != "paddingLeft"@.len());
        assert(key[7] == 'R');
        if 0 <= i < key.len() && is_ascii_upper(key[i]) {
            assert(i == 0 || i == 1 || i == 2 || i == 3 || i == 4 || i == 5 || i == 6 || i == 7
                || i == 8 || i == 9 || i == 10 || i == 11);
            assert(i == 7);
            assert("padding-right"@ =~= key.take(7) + seq!['-', 'r'] + key.skip(8));
        }
    }
    if key == "paddingTop"@ {
        assert("paddingTop"@.len() != "color"@.len());
        assert("paddingTop"@[0] != "background"@[0]);
        assert("paddingTop"@.len() != "backgroundColor"@.len());
        assert("paddingTop"@.len() != "border"@.len());
        assert("paddingTop"@.len() != "borderRadius"@.len());
        assert("paddingTop"@.len() != "borderColor"@.len());
        assert("paddingTop"@.len() != "borderWidth"@.len());
        assert("paddingTop"@.len() != "borderStyle"@.len());
        assert("paddingTop"@.len() != "fontSize"@.len());
        assert("paddingTop"@[0] != "fontWeight"@[0]);
        assert("paddingTop"@[0] != "fontFamily"@[0]);
        assert("paddingTop"@.len() != "fontStyle"@.len());
        assert("paddingTop"@.len() != "padding"@.len());
        assert("paddingTop"@.len() != "paddingLeft"@.len());
        assert("paddingTop"@.len() != "paddingRight"@.len());
        assert(key[7] == 'T');
        if 0 <= i < key.len() && is_ascii_upper(key[i]) {
            assert(i == 0 || i == 1 || i == 2 || i == 3 || i == 4 || i == 5 || i == 6 || i == 7
                || i == 8 || i == 9);
            assert(i == 7);
            assert("padding-top"@ =~= key.take(7) + seq!['-', 't'] + key.skip(8));
        }
    }
    if key == "paddingBottom"@ {
        assert("paddingBottom"@.len() != "color"@.len());
        assert("paddingBottom"@.len() != "background"@.len());
        assert("paddingBottom"@.len() != "backgroundColor"@.len());
        assert("paddingBottom"@.len() != "border"@.len());
        assert("paddingBottom"@.len() != "borderRadius"@.len());
        assert("paddingBottom"@.len() != "borderColor"@.len());
        assert("paddingBottom"@.len() != "borderWidth"@.len());
        assert("paddingBottom"@.len() != "borderStyle"@.len());
        assert("paddingBottom"@.len() != "fontSize"@.len());
        assert("paddingBottom"@.len() != "fontWeight"@.len());
        assert("paddingBottom"@.len() != "fontFamily"@.len());
        assert("paddingBottom"@.len() != "fontStyle"@.len());
        assert("paddingBottom"@.len() != "padding"@.len());
        assert("paddingBottom"@.len() != "paddingLeft"@.len());
        assert("paddingBottom"@.len() != "paddingRight"@.len());
        assert("paddingBottom"@.len() != "paddingTop"@.len());
        assert(key[7] == 'B');
        if 0 <= i < key.len() && is_ascii_upper(key[i]) {
            assert(i == 0 || i == 1 || i == 2 || i == 3 || i == 4 || i == 5 || i == 6 || i == 7
                || i == 8 || i == 9 || i == 10 || i == 11 || i == 12);
            assert(i == 7);
            assert("padding-bottom"@ =~= key.take(7) + seq!['-', 'b'] + key.skip(8));
        }
    }
    if key == "margin"@ {
        assert("margin"@.len() != "color"@.len());
        assert("margin"@.len() != "background"@.len());
        assert("margin"@.len() != "backgroundColor"@.len());
        assert("margin"@[0] != "border"@[0]);
        assert("margin"@.len() != "borderRadius"@.len());
        assert("margin"@.len() != "borderColor"@.len());
        assert("margin"@.len() != "borderWidth"@.len());
        assert("margin"@.len() != "borderStyle"@.len());
        assert("margin"@.len() != "fontSize"@.len());
        assert("margin"@.len() != "fontWeight"@.len());
        assert("margin"@.len() != "fontFamily"@.len());
        assert("margin"@.len() != "fontStyle"@.len());
        assert("margin"@.len() != "padding"@.len());
        assert("margin"@.len() != "paddingLeft"@.len());
        assert("margin"@.len() != "paddingRight"@.len());
        assert("margin"@.len() != "paddingTop"@.len());
        assert("margin"@.len() != "paddingBottom"@.len());
        if 0 <= i < key.len() && is_ascii_upper(key[i]) {
            assert(i == 0 || i == 1 || i == 2 || i == 3 || i == 4 || i == 5);
        }
    }
    if key == "marginLeft"@ {
        assert("marginLeft"@.len() != "color"@.len());
        assert("marginLeft"@[0] != "background"@[0]);
        assert("marginLeft"@.len() != "backgroundColor"@.len());
        assert("marginLeft"@.len() != "border"@.len());
        assert("marginLeft"@.len() != "borderRadius"@.len());
        assert("marginLeft"@.len() != "borderColor"@.len());
        assert("marginLeft"@.len() != "borderWidth"@.len());
        assert("marginLeft"@.len() != "borderStyle"@.len());
        assert("marginLeft"@.len() != "fontSize"@.len());
        assert("marginLeft"@[0] != "fontWeight"@[0]);
        assert("marginLeft"@[0] != "fontFamily"@[0]);
        assert("marginLeft"@.len() != "fontStyle"@.len());
        assert("marginLeft"@.len() != "padding"@.len());
        assert("marginLeft"@.len() != "paddingLeft"@.len());
        assert("marginLeft"@.len() != "paddingRight"@.len());
        assert("marginLeft"@[0] != "paddingTop"@[0]);
        assert("marginLeft"@.len() != "paddingBottom"@.len());
        assert("marginLeft"@.len() != "margin"@.len());
        assert(key[6] == 'L');
        if 0 <= i < key.len() && is_ascii_upper(key[i]) {
            assert(i == 0 || i == 1 || i == 2 || i == 3 || i == 4 || i == 5 || i == 6 || i == 7
                || i == 8 || i == 9);
            assert(i == 6);
            assert("margin-left"@ =~= key.take(6) + seq!['-', 'l'] + key.skip(7));
        }
    }
    if key == "marginRight"@ {
        assert("marginRight"@.len() != "color"@.len());
        assert("marginRight"@.len() != "background"@.len());
        assert("marginRight"@.len() != "backgroundColor"@.len());
        assert("marginRight"@.len() != "border"@.len());
        assert("marginRight"@.len() != "borderRadius"@.len());
        assert("marginRight"@[0] != "borderColor"@[0]);
        assert("marginRight"@[0] != "borderWidth"@[0]);
        assert("marginRight"@[0] != "borderStyle"@[0]);
        assert("marginRight"@.len() != "fontSize"@.len());
        assert("marginRight"@.len() != "fontWeight"@.len());
        assert("marginRight"@.len() != "fontFamily"@.len());
        assert("marginRight"@.len() != "fontStyle"@.len());
        assert("marginRight"@.len() != "padding"@.len());
        assert("marginRight"@[0] != "paddingLeft"@[0]);
        assert("marginRight"@.len() != "paddingRight"@.len());
        assert("marginRight"@.len() != "paddingTop"@.len());
        assert("marginRight"@.len() != "paddingBottom"@.len());
        assert("marginRight"@.len() != "margin"@.len());
        assert("marginRight"@.len() != "marginLeft"@.len());
        assert(key[6] == 'R');
        if 0 <= i < key.len() && is_ascii_upper(key[i]) {
            assert(i == 0 || i == 1 || i == 2 || i == 3 || i == 4 || i == 5 || i == 6 || i == 7
                || i == 8 || i == 9 || i == 10);
            assert(i == 6);
            assert("margin-right"@ =~= key.take(6) + seq!['-', 'r'] + key.skip(7));
        }
    }
    if key == "marginTop"@ {
        assert("marginTop"@.len() != "color"@.len());
        assert("marginTop"@.len() != "background"@.len());
        assert("marginTop"@.len() != "backgroundColor"@.len());
        assert("marginTop"@.len() != "border"@.len());
        assert("marginTop"@.len() != "borderRadius"@.len());
        assert("marginTop"@.len() != "borderColor"@.len());
        assert("marginTop"@.len() != "borderWidth"@.len());
        assert("marginTop"@.len() != "borderStyle"@.len());
        assert("marginTop"@.len() != "fontSize"@.len());
        assert("marginTop"@.len() != "fontWeight"@.len());
        assert("marginTop"@.len() != "fontFamily"@.len());
        assert("marginTop"@[0] != "fontStyle"@[0]);
        assert("marginTop"@.len() != "padding"@.len());
        assert("marginTop"@.len() != "paddingLeft"@.len());
        assert("marginTop"@.len() != "paddingRight"@.len());
        assert("marginTop"@.len() != "paddingTop"@.len());
        assert("marginTop"@.len() != "paddingBottom"@.len());
        assert("marginTop"@.len() != "margin"@.len());
        assert("marginTop"@.len() != "marginLeft"@.len());
        assert("marginTop"@.len() != "marginRight"@.len());
        assert(key[6] == 'T');
        if 0 <= i < key.len() && is_ascii_upper(key[i]) {
            assert(i == 0 || i == 1 || i == 2 || i == 3 || i == 4 || i == 5 || i == 6 || i == 7 || i == 8);
            assert(i == 6);
            assert("margin-top"@ =~= key.take(6) + seq!['-', 't'] + key.skip(7));
        }
    }
    if key == "marginBottom"@ {
        assert("marginBottom"@.len() != "color"@.len());
        assert("marginBottom"@.len() != "background"@.len());
        assert("marginBottom"@.len() != "backgroundColor"@.len());
        assert("marginBottom"@.len() != "border"@.len());
        assert("marginBottom"@[0] != "borderRadius"@[0]);
        assert("marginBottom"@.len() != "borderColor"@.len());
        assert("marginBottom"@.len() != "borderWidth"@.len());
        assert("marginBottom"@.len() != "borderStyle"@.len());
        assert("marginBottom"@.len() != "fontSize"@.len());
        assert("marginBottom"@.len() != "fontWeight"@.len());
        assert("marginBottom"@.len() != "fontFamily"@.len());
        assert("marginBottom"@.len() != "fontStyle"@.len());
        assert("marginBottom"@.len() != "padding"@.len());
        assert("marginBottom"@.len() != "paddingLeft"@.len());
        assert("marginBottom"@[0] != "paddingRight"@[0]);
        assert("marginBottom"@.len() != "paddingTop"@.len());
        assert("marginBottom"@.len() != "paddingBottom"@.len());
        assert("marginBottom"@.len() != "margin"@.len());
        assert("marginBottom"@.len() != "marginLeft"@.len());
        assert("marginBottom"@.len() != "marginRight"@.len());
        assert("marginBottom"@.len() != "marginTop"@.len());
        assert(key[6] == 'B');
        if 0 <= i < key.len() && is_ascii_upper(key[i]) {
            assert(i == 0 || i == 1 || i == 2 || i == 3 || i == 4 || i == 5 || i == 6 || i == 7
                || i == 8 || i == 9 || i == 10 || i == 11);
            assert(i == 6);
            assert("margin-bottom"@ =~= key.take(6) + seq!['-', 'b'] + key.skip(7));
        }
    }
}

/// A key of the vocabulary takes lengths where it is a radius, a width or a
/// size, or belongs to the padding or the margin.
pub open spec fn names_length(key: Seq<char>) -> bool {
    ||| ends_with(key, "Radius"@)
    ||| ends_with(key, "Width"@)
    ||| ends_with(key, "Size"@)
    ||| starts_with(key, "padding"@)
    ||| starts_with(key, "margin"@)
}

/// The keys of the vocabulary whose numbers have a unit are those that name a
/// length.
pub proof fn law_lengths_are_named(key: Seq<char>)
    requires
        kebab(key) is Some,
    ensures
        length_key(key) <==> names_length(key),
{
    reveal_strlit("color");
    reveal_strlit("background");
    reveal_strlit("backgroundColor");
    reveal_strlit("border");
    reveal_strlit("borderRadius");
    reveal_strlit("borderColor");
    reveal_strlit("borderWidth");
    reveal_strlit("borderStyle");
    reveal_strlit("fontSize");
    reveal_strlit("fontWeight");
    reveal_strlit("fontFamily");
    reveal_strlit("fontStyle");
    reveal_strlit("padding");
    reveal_strlit("paddingLeft");
    reveal_strlit("paddingRight");
    reveal_strlit("paddingTop");
    reveal_strlit("paddingBottom");
    reveal_strlit("margin");
    reveal_strlit("marginLeft");
    reveal_strlit("marginRight");
    reveal_strlit("marginTop");
    reveal_strlit("marginBottom");
    reveal_strlit("textAlign");
    reveal_strlit("Radius");
    reveal_strlit("Width");
    reveal_strlit("Size");
    reveal_strlit("Radius");
    if key == "color"@ {
        assert("color"@.len() != "borderRadius"@.len());
        assert("color"@.len() != "borderWidth"@.len());
        assert("color"@.len() != "fontSize"@.len());
        assert("color"@.len() != "padding"@.len());
        assert("color"@.len() != "paddingLeft"@.len());
        assert("color"@.len() != "paddingRight"@.len());
        assert("color"@.len() != "paddingTop"@.len());
        assert("color"@.len() != "paddingBottom"@.len());
        assert("color"@.len() != "margin"@.len());
        assert("color"@.len() != "marginLeft"@.len());
        assert("color"@.len() != "marginRight"@.len());
        assert("color"@.len() != "marginTop"@.len());
        assert("color"@.len() != "marginBottom"@.len());
        assert(key.subrange(0, 5)[0] != "Width"@[0]);
        assert(key.subrange(1, 5)[0] != "Size"@[0]);
    }
    if key == "background"@ {
        assert("background"@.len() != "borderRadius"@.len());
        assert("background"@.len() != "borderWidth"@.len());
        assert("background"@.len() != "fontSize"@.len());
        assert("background"@.len() != "padding"@.len());
        assert("background"@.len() != "paddingLeft"@.len());
        assert("background"@.len() != "paddingRight"@.len());
        assert("background"@[0] != "paddingTop"@[0]);
        assert("background"@.len() != "paddingBottom"@.len());
        assert("background"@.len() != "margin"@.len());
        assert("background"@[0] != "marginLeft"@[0]);
        assert("background"@.len() != "marginRight"@.len());
        assert("background"@.len() != "marginTop"@.len());
        assert("background"@.len() != "marginBottom"@.len());
        assert(key.subrange(4, 10)[0] != "Radius"@[0]);
        assert(key.subrange(5, 10)[0] != "Width"@[0]);
        assert(key.subrange(6, 10)[0] != "Size"@[0]);
        assert(key.subrange(0, 7)[0] != "padding"@[0]);
        assert(key.subrange(0, 6)[0] != "margin"@[0]);
    }
    if key == "backgroundColor"@ {
        assert("backgroundColor"@.len() != "borderRadius"@.len());
        assert("backgroundColor"@.len() != "borderWidth"@.len());
        assert("backgroundColor"@.len() != "fontSize"@.len());
        assert("backgroundColor"@.len() != "padding"@.len());
        assert("backgroundColor"@.len() != "paddingLeft"@.len());
        assert("backgroundColor"@.len() != "paddingRight"@.len());
        assert("backgroundColor"@.len() != "paddingTop"@.len());
        assert("backgroundColor"@.len() != "paddingBottom"@.len());
        assert("backgroundColor"@.len() != "margin"@.len());
        assert("backgroundColor"@.len() != "marginLeft"@.len());
        assert("backgroundColor"@.len() != "marginRight"@.len());
        assert("backgroundColor"@.len() != "marginTop"@.len());
        assert("backgroundColor"@.len() != "marginBottom"@.len());
        assert(key.subrange(9, 15)[0] != "Radius"@[0]);
        assert(key.subrange(10, 15)[0] != "Width"@[0]);
        assert(key.subrange(11, 15)[0] != "Size"@[0]);
        assert(key.subrange(0, 7)[0] != "padding"@[0]);
        assert(key.subrange(0, 6)[0] != "margin"@[0]);
    }
    if key == "border"@ {
        assert("border"@.len() != "borderRadius"@.len());
        assert("border"@.len() != "borderWidth"@.len());
        assert("border"@.len() != "fontSize"@.len());
        assert("border"@.len() != "padding"@.len());
        assert("border"@.len() != "paddingLeft"@.len());
        assert("border"@.len() != "paddingRight"@.len());
        assert("border"@.len() != "paddingTop"@.len());
        assert("border"@.len() != "paddingBottom"@.len());
        assert("border"@[0] != "margin"@[0]);
        assert("border"@.len() != "marginLeft"@.len());
        assert("border"@.len() != "marginRight"@.len());
        assert("border"@.len() != "marginTop"@.len());
        assert("border"@.len() != "marginBottom"@.len());
        assert(key.subrange(0, 6)[0] != "Radius"@[0]);
        assert(key.subrange(1, 6)[0] != "Width"@[0]);
        assert(key.subrange(2, 6)[0] != "Size"@[0]);
        assert(key.subrange(0, 6)[0] != "margin"@[0]);
    }
    if key == "borderRadius"@ {
        assert(key.subrange(6, 12) =~= "Radius"@);
    }
    if key == "borderColor"@ {
        assert("borderColor"@.len() != "borderRadius"@.len());
        assert("borderColor"@[6] != "borderWidth"@[6]);
        assert("borderColor"@.len() != "fontSize"@.len());
        assert("borderColor"@.len() != "padding"@.len());
        assert("borderColor"@[0] != "paddingLeft"@[0]);
        assert("borderColor"@.len() != "paddingRight"@.len());
        assert("borderColor"@.len() != "paddingTop"@.len());
        assert("borderColor"@.len() != "paddingBottom"@.len());
        assert("borderColor"@.len() != "margin"@.len());
        assert("borderColor"@.len() != "marginLeft"@.len());
        assert("borderColor"@[0] != "marginRight"@[0]);
        assert("borderColor"@.len() != "marginTop"@.len());
        assert("borderColor"@.len() != "marginBottom"@.len());
        assert(key.subrange(5, 11)[0] != "Radius"@[0]);
        assert(key.subrange(6, 11)[0] != "Width"@[0]);
        assert(key.subrange(7, 11)[0] != "Size"@[0]);
        assert(key.subrange(0, 7)[0] != "padding"@[0]);
        assert(key.subrange(0, 6)[0] != "margin"@[0]);
    }
    if key == "borderWidth"@ {
        assert(key.subrange(6, 11) =~= "Width"@);
    }
    if key == "borderStyle"@ {
        assert("borderStyle"@.len() != "borderRadius"@.len());
        assert("borderStyle"@[6] != "borderWidth"@[6]);
        assert("borderStyle"@.len() != "fontSize"@.len());
        assert("borderStyle"@.len() != "padding"@.len());
        assert("borderStyle"@[0] != "paddingLeft"@[0]);
        assert("borderStyle"@.len() != "paddingRight"@.len());
        assert("borderStyle"@.len() != "paddingTop"@.len());
        assert("borderStyle"@.len() != "paddingBottom"@.len());
        assert("borderStyle"@.len() != "margin"@.len());
        assert("borderStyle"@.len() != "marginLeft"@.len());
        assert("borderStyle"@[0] != "marginRight"@[0]);
        assert("borderStyle"@.len() != "marginTop"@.len());
        assert("borderStyle"@.len() != "marginBottom"@.len());
        assert(key.subrange(5, 11)[0] != "Radius"@[0]);
        assert(key.subrange(6, 11)[0] != "Width"@[0]);
        assert(key.subrange(7, 11)[0] != "Size"@[0]);
        assert(key.subrange(0, 7)[0] != "padding"@[0]);
        assert(key.subrange(0, 6)[0] != "margin"@[0]);
    }
    if key == "fontSize"@ {
        assert(key.subrange(4, 8) =~= "Size"@);
    }
    if key == "fontWeight"@ {
        assert("fontWeight"@.len() != "borderRadius"@.len());
        assert("fontWeight"@.len() != "borderWidth"@.len());
        assert("fontWeight"@.len() != "fontSize"@.len());
        assert("fontWeight"@.len() != "padding"@.len());
        assert("fontWeight"@.len() != "paddingLeft"@.len());
        assert("fontWeight"@.len() != "paddingRight"@.len());
        assert("fontWeight"@[0] != "paddingTop"@[0]);
        assert("fontWeight"@.len() != "paddingBottom"@.len());
        assert("fontWeight"@.len() != "margin"@.len());
        assert("fontWeight"@[0] != "marginLeft"@[0]);
        assert("fontWeight"@.len() != "marginRight"@.len());
        assert("fontWeight"@.len() != "marginTop"@.len());
        assert("fontWeight"@.len() != "marginBottom"@.len());
        assert(key.subrange(4, 10)[0] != "Radius"@[0]);
        assert(key.subrange(5, 10)[0] != "Width"@[0]);
        assert(key.subrange(6, 10)[0] != "Size"@[0]);
        assert(key.subrange(0, 7)[0] != "padding"@[0]);
        assert(key.subrange(0, 6)[0] != "margin"@[0]);
    }
    if key == "fontFamily"@ {
        assert("fontFamily"@.len() != "borderRadius"@.len());
        assert("fontFamily"@.len() != "borderWidth"@.len());
        assert("fontFamily"@.len() != "fontSize"@.len());
        assert("fontFamily"@.len() != "padding"@.len());
        assert("fontFamily"@.len() != "paddingLeft"@.len());
        assert("fontFamily"@.len() != "paddingRight"@.len());
        assert("fontFamily"@[0] != "paddingTop"@[0]);
        assert("fontFamily"@.len() != "paddingBottom"@.len());
        assert("fontFamily"@.len() != "margin"@.len());
        assert("fontFamily"@[0] != "marginLeft"@[0]);
        assert("fontFamily"@.len() != "marginRight"@.len());
        assert("fontFamily"@.len() != "marginTop"@.len());
        assert("fontFamily"@.len() != "marginBottom"@.len());
        assert(key.subrange(4, 10)[0] != "Radius"@[0]);
        assert(key.subrange(5, 10)[0] != "Width"@[0]);
        assert(key.subrange(6, 10)[0] != "Size"@[0]);
        assert(key.subrange(0, 7)[0] != "padding"@[0]);
        assert(key.subrange(0, 6)[0] != "margin"@[0]);
    }
    if key == "fontStyle"@ {
        assert("fontStyle"@.len() != "borderRadius"@.len());
        assert("fontStyle"@.len() != "borderWidth"@.len());
        assert("fontStyle"@.len() != "fontSize"@.len());
        assert("fontStyle"@.len() != "padding"@.len());
        assert("fontStyle"@.len() != "paddingLeft"@.len());
        assert("fontStyle"@.len() != "paddingRight"@.len());
        assert("fontStyle"@.len() != "paddingTop"@.len());
        assert("fontStyle"@.len() != "paddingBottom"@.len());
        assert("fontStyle"@.len() != "margin"@.len());
        assert("fontStyle"@.len() != "marginLeft"@.len());
        assert("fontStyle"@.len() != "marginRight"@.len());
        assert("fontStyle"@[0] != "marginTop"@[0]);
        assert("fontStyle"@.len() != "marginBottom"@.len());
        assert(key.subrange(3, 9)[0] != "Radius"@[0]);
        assert(key.subrange(4, 9)[0] != "Width"@[0]);
        assert(key.subrange(5, 9)[0] != "Size"@[0]);
        assert(key.subrange(0, 7)[0] != "padding"@[0]);
        assert(key.subrange(0, 6)[0] != "margin"@[0]);
    }
    if key == "padding"@ {
        assert(key.subrange(0, 7) =~= "padding"@);
    }
    if key == "paddingLeft"@ {
        assert(key.subrange(0, 7) =~= "padding"@);
    }
    if key == "paddingRight"@ {
        assert(key.subrange(0, 7) =~= "padding"@);
    }
    if key == "paddingTop"@ {
        assert(key.subrange(0, 7) =~= "padding"@);
    }
    if key == "paddingBottom"@ {
        assert(key.subrange(0, 7) =~= "padding"@);
    }
    if key == "margin"@ {
        assert(key.subrange(0, 6) =~= "margin"@);
    }
    if key == "marginLeft"@ {
        assert(key.subrange(0, 6) =~= "margin"@);
    }
    if key == "marginRight"@ {
        assert(key.subrange(0, 6) =~= "margin"@);
    }
    if key == "marginTop"@ {
        assert(key.subrange(0, 6) =~= "margin"@);
    }
    if key == "marginBottom"@ {
        assert(key.subrange(0, 6) =~= "margin"@);
    }
    if key == "textAlign"@ {
        assert("textAlign"@.len() != "borderRadius"@.len());
        assert("textAlign"@.len() != "borderWidth"@.len());
        assert("textAlign"@.len() != "fontSize"@.len());
        assert("textAlign"@.len() != "padding"@.len());
        assert("textAlign"@.len() != "paddingLeft"@.len());
        assert("textAlign"@.len() != "paddingRight"@.len());
        assert("textAlign"@.len() != "paddingTop"@.len());
        assert("textAlign"@.len() != "paddingBottom"@.len());
        assert("textAlign"@.len() != "margin"@.len());
        assert("textAlign"@.len() != "marginLeft"@.len());
        assert("textAlign"@.len() != "marginRight"@.len());
        assert("textAlign"@[0] != "marginTop"@[0]);
        assert("textAlign"@.len() != "marginBottom"@.len());
        assert(key.subrange(3, 9)[0] != "Radius"@[0]);
        assert(key.subrange(4, 9)[0] != "Width"@[0]);
        assert(key.subrange(5, 9)[0] != "Size"@[0]);
        assert(key.subrange(0, 7)[0] != "padding"@[0]);
        assert(key.subrange(0, 6)[0] != "margin"@[0]);
    }
}

// ---- values -------------------------------------------------------------------------

/// A number is written in full, with the unit `px` exactly where the key names a
/// length: under two keys of the vocabulary it differs by the unit alone.
pub proof fn law_numbers_differ_by_their_unit(a: Seq<char>, b: Seq<char>, value: Expr)
    requires
        kebab(a) is Some,
        kebab(b) is Some,
        value.kind is Int || value.kind is Float,
        names_length(a),
        !names_length(b),
    ensures
        value_text(a, value) is Some,
        value_text(b, value) is Some,
        value_text(a, value)->0 == value_text(b, value)->0 + "px"@,
        value_text(b, value)->0 == match value.kind {
            ExprKind::Int(n) => signed_decimal(n as int),
            ExprKind::Float(t) => t@,
            _ => Seq::empty(),
        },
{
    law_lengths_are_named(a);
    law_lengths_are_named(b);
}

/// A plain string is the value as it stands, but for an alignment, and nothing
/// but a number or a plain string is a value.
pub proof fn law_only_literals_are_values(key: Seq<char>, value: Expr)
    ensures
        match value.kind {
            ExprKind::Str(parts) => match parts@ {
                _ if parts@.len() == 1 && parts@[0] is Text => value_text(key, value) == Some(
                    if key == "textAlign"@ {
                        alignment(parts@[0]->Text_0@)
                    } else {
                        parts@[0]->Text_0@
                    },
                ),
                _ => value_text(key, value) is None,
            },
            ExprKind::Int(_) | ExprKind::Float(_) => value_text(key, value) is Some,
            _ => value_text(key, value) is None,
        },
{
}

/// `Align` before the word.
pub open spec fn aligned(w: Seq<char>) -> Seq<char> {
    "Align"@ + w
}

/// The four directions stand for Qt's alignments of the same name, in lower case
/// too, and every other text stands for itself.
pub proof fn law_alignments_are_qt_names(w: Seq<char>, s: Seq<char>)
    requires
        w == "Left"@ || w == "Right"@ || w == "Center"@ || w == "Justify"@,
    ensures
        alignment(w) == aligned(w),
        alignment(seq![ascii_lower(w[0])] + w.skip(1)) == aligned(w),
        alignment(s) != s ==> exists|v: Seq<char>| #[trigger]
            aligned(v) == alignment(s) && s.len() > 0 && (s == v || s == seq![ascii_lower(v[0])]
                + v.skip(1)),
{
    reveal_strlit("Left");
    reveal_strlit("Right");
    reveal_strlit("Center");
    reveal_strlit("Justify");
    reveal_strlit("left");
    reveal_strlit("right");
    reveal_strlit("center");
    reveal_strlit("justify");
    reveal_strlit("AlignLeft");
    reveal_strlit("AlignRight");
    reveal_strlit("AlignCenter");
    reveal_strlit("AlignJustify");
    reveal_strlit("Align");
    assert("AlignLeft"@ =~= aligned("Left"@));
    assert("left"@ =~= seq![ascii_lower("Left"@[0])] + "Left"@.skip(1));
    assert("AlignRight"@ =~= aligned("Right"@));
    assert("right"@ =~= seq![ascii_lower("Right"@[0])] + "Right"@.skip(1));
    assert("AlignCenter"@ =~= aligned("Center"@));
    assert("center"@ =~= seq![ascii_lower("Center"@[0])] + "Center"@.skip(1));
    assert("AlignJustify"@ =~= aligned("Justify"@));
    assert("justify"@ =~= seq![ascii_lower("Justify"@[0])] + "Justify"@.skip(1));
    if w == "Left"@ {
    }
    if w == "Right"@ {
        assert("Right"@.len() != "Left"@.len());
        assert("Right"@.len() != "left"@.len());
        assert("right"@.len() != "Left"@.len());
        assert("right"@.len() != "left"@.len());
    }
    if w == "Center"@ {
        assert("Center"@.len() != "Left"@.len());
        assert("Center"@.len() != "left"@.len());
        assert("center"@.len() != "Left"@.len());
        assert("center"@.len() != "left"@.len());
        assert("Center"@.len() != "Right"@.len());
        assert("Center"@.len() != "right"@.len());
        assert("center"@.len() != "Right"@.len());
        assert("center"@.len() != "right"@.len());
    }
    if w == "Justify"@ {
        assert("Justify"@.len() != "Left"@.len());
        assert("Justify"@.len() != "left"@.len());
        assert("justify"@.len() != "Left"@.len());
        assert("justify"@.len() != "left"@.len());
        assert("Justify"@.len() != "Right"@.len());
        assert("Justify"@.len() != "right"@.len());
        assert("justify"@.len() != "Right"@.len());
        assert("justify"@.len() != "right"@.len());
        assert("Justify"@.len() != "Center"@.len());
        assert("Justify"@.len() != "center"@.len());
        assert("justify"@.len() != "Center"@.len());
        assert("justify"@.len() != "center"@.len());
    }
    if s == "Left"@ || s == "left"@ {
        assert(aligned("Left"@) == aligned("Left"@));
    }
    if s == "Right"@ || s == "right"@ {
        assert(aligned("Right"@) == aligned("Right"@));
    }
    if s == "Center"@ || s == "center"@ {
        assert(aligned("Center"@) == aligned("Center"@));
    }
    if s == "Justify"@ || s == "justify"@ {
        assert(aligned("Justify"@) == aligned("Justify"@));
    }
    if s == "Left"@ || s == "left"@ {
        assert(alignment(s) == aligned("Left"@));
    }
    if s == "Right"@ || s == "right"@ {
        assert("Right"@.len() != "Left"@.len());
        assert("Right"@.len() != "left"@.len());
        assert("right"@.len() != "Left"@.len());
        assert("right"@.len() != "left"@.len());
        assert(alignment(s) == aligned("Right"@));
    }
    if s == "Center"@ || s == "center"@ {
        assert("Center"@.len() != "Left"@.len());
        assert("Center"@.len() != "left"@.len());
        assert("center"@.len() != "Left"@.len());
        assert("center"@.len() != "left"@.len());
        assert("Center"@.len() != "Right"@.len());
        assert("Center"@.len() != "right"@.len());
        assert("center"@.len() != "Right"@.len());
        assert("center"@.len() != "right"@.len());
        assert(alignment(s) == aligned("Center"@));
    }
    if s == "Justify"@ || s == "justify"@ {
        assert("Justify"@.len() != "Left"@.len());
        assert("Justify"@.len() != "left"@.len());
        assert("justify"@.len() != "Left"@.len());
        assert("justify"@.len() != "left"@.len());
        assert("Justify"@.len() != "Right"@.len());
        assert("Justify"@.len() != "right"@.len());
        assert("justify"@.len() != "Right"@.len());
        assert("justify"@.len() != "right"@.len());
        assert("Justify"@.len() != "Center"@.len());
        assert("Justify"@.len() != "center"@.len());
        assert("justify"@.len() != "Center"@.len());
        assert("justify"@.len() != "center"@.len());
        assert(alignment(s) == aligned("Justify"@));
    }
}

// ---- style sheets -------------------------------------------------------------------

/// A rule: the selector with its pseudo-class, and every declaration in its
/// order.
pub open spec fn rule_text(
    selector: Seq<char>,
    suffix: Seq<char>,
    b: Seq<(Seq<char>, Seq<char>)>,
) -> Seq<char> {
    selector + suffix + " { "@ + join(
        Seq::new(b.len(), |i: int| b[i].0 + ": "@ + b[i].1 + ";"@),
        " "@,
    ) + " }"@
}

proof fn lemma_declarations(s: Seq<char>, b: Seq<(Seq<char>, Seq<char>)>, n: int)
    requires
        0 < n <= b.len(),
    ensures
        declarations(s, b, n) == s + join(
            Seq::new(n as nat, |i: int| b[i].0 + ": "@ + b[i].1 + ";"@),
            " "@,
        ) + " "@,
    decreases n,
{
    reveal_strlit("; ");
    reveal_strlit(";");
    reveal_strlit(" ");
    let parts = Seq::new(n as nat, |i: int| b[i].0 + ": "@ + b[i].1 + ";"@);
    let last = b[n - 1].0 + ": "@ + b[n - 1].1;
    if n == 1 {
        assert(declarations(s, b, 0) == s);
        assert(join(parts, " "@) == parts[0]);
        assert(s + b[0].0 + ": "@ + b[0].1 + "; "@ =~= s + (b[0].0 + ": "@ + b[0].1 + ";"@) + " "@);
    } else {
        lemma_declarations(s, b, n - 1);
        let before = Seq::new((n - 1) as nat, |i: int| b[i].0 + ": "@ + b[i].1 + ";"@);
        assert(parts.drop_last() =~= before);
        let j = join(before, " "@);
        assert(join(parts, " "@) == j + " "@ + parts.last());
        assert(s + j + " "@ + b[n - 1].0 + ": "@ + b[n - 1].1 + "; "@ =~= s + (j + " "@ + (
        b[n - 1].0 + ": "@ + b[n - 1].1 + ";"@)) + " "@);
    }
}

/// The rule of a bucket stands behind what came before and a space; an empty
/// bucket has none.
pub proof fn law_rules_follow_each_other(
    s: Seq<char>,
    selector: Seq<char>,
    p: QssPseudo,
    b: Seq<(Seq<char>, Seq<char>)>,
)
    ensures
        with_rule(s, selector, p, b) == if b.len() == 0 {
            s
        } else if s.len() == 0 {
            rule_text(selector, pseudo_suffix(p), b)
        } else {
            s + " "@ + rule_text(selector, pseudo_suffix(p), b)
        },
{
    if b.len() > 0 {
        let start = if s.len() == 0 {
            s
        } else {
            s + " "@
        };
        let head = start + selector + pseudo_suffix(p) + " { "@;
        lemma_declarations(head, b, b.len() as int);
        let j = join(Seq::new(b.len(), |i: int| b[i].0 + ": "@ + b[i].1 + ";"@), " "@);
        reveal_strlit(" ");
        reveal_strlit("}");
        reveal_strlit(" }");
        assert(head + j + " "@ + "}"@ =~= start + (selector + pseudo_suffix(p) + " { "@ + j + " }"@));
        if s.len() == 0 {
            assert(start + rule_text(selector, pseudo_suffix(p), b) =~= rule_text(
                selector,
                pseudo_suffix(p),
                b,
            ));
        }
    }
}

/// The rules of the buckets that hold something.
pub open spec fn rules_of(bag: QssBag, selector: Seq<char>, v: Seq<QssPseudo>) -> Seq<Seq<char>>
    decreases v.len(),
{
    if v.len() == 0 {
        Seq::empty()
    } else if bag.bucket(v.last()).len() == 0 {
        rules_of(bag, selector, v.drop_last())
    } else {
        rules_of(bag, selector, v.drop_last()).push(
            rule_text(selector, pseudo_suffix(v.last()), bag.bucket(v.last())),
        )
    }
}

proof fn lemma_rule_not_empty(selector: Seq<char>, suffix: Seq<char>, b: Seq<(Seq<char>, Seq<char>)>)
    ensures
        rule_text(selector, suffix, b).len() > 0,
{
    reveal_strlit(" { ");
}

proof fn lemma_joined_rules(bag: QssBag, selector: Seq<char>, v: Seq<QssPseudo>)
    ensures
        (join(rules_of(bag, selector, v), " "@).len() == 0) <==> (rules_of(bag, selector, v).len()
            == 0),
    decreases v.len(),
{
    if v.len() > 0 {
        lemma_joined_rules(bag, selector, v.drop_last());
        let before = rules_of(bag, selector, v.drop_last());
        let r = rule_text(selector, pseudo_suffix(v.last()), bag.bucket(v.last()));
        lemma_rule_not_empty(selector, pseudo_suffix(v.last()), bag.bucket(v.last()));
        if bag.bucket(v.last()).len() > 0 {
            assert(before.push(r).drop_last() =~= before);
            reveal_strlit(" ");
        }
    }
}

proof fn lemma_sheet_step(bag: QssBag, selector: Seq<char>, v: Seq<QssPseudo>, p: QssPseudo)
    ensures
        with_rule(join(rules_of(bag, selector, v), " "@), selector, p, bag.bucket(p)) == join(
            rules_of(bag, selector, v.push(p)),
            " "@,
        ),
{
    let s = join(rules_of(bag, selector, v), " "@);
    law_rules_follow_each_other(s, selector, p, bag.bucket(p));
    lemma_joined_rules(bag, selector, v);
    assert(v.push(p).drop_last() =~= v);
    let before = rules_of(bag, selector, v);
    let r = rule_text(selector, pseudo_suffix(p), bag.bucket(p));
    if bag.bucket(p).len() > 0 {
        assert(before.push(r).drop_last() =~= before);
        if before.len() == 0 {
            assert(before.push(r)[0] == r);
        }
    }
}

/// The style sheet of a bag is one rule for each bucket that holds something,
/// the plain one first and then hover, pressed, focus, disabled and checked.
pub proof fn law_sheets_hold_every_bucket(bag: QssBag, selector: Seq<char>)
    ensures
        bag.sheet(selector) == join(
            rules_of(
                bag,
                selector,
                seq![
                    QssPseudo::Base,
                    QssPseudo::Hover,
                    QssPseudo::Pressed,
                    QssPseudo::Focus,
                    QssPseudo::Disabled,
                    QssPseudo::Checked,
                ],
            ),
            " "@,
        ),
{
    let none = Seq::<QssPseudo>::empty();
    reveal_strlit("");
    assert(join(rules_of(bag, selector, none), " "@) =~= ""@);
    let v1 = none.push(QssPseudo::Base);
    let v2 = v1.push(QssPseudo::Hover);
    let v3 = v2.push(QssPseudo::Pressed);
    let v4 = v3.push(QssPseudo::Focus);
    let v5 = v4.push(QssPseudo::Disabled);
    lemma_sheet_step(bag, selector, none, QssPseudo::Base);
    lemma_sheet_step(bag, selector, v1, QssPseudo::Hover);
    lemma_sheet_step(bag, selector, v2, QssPseudo::Pressed);
    lemma_sheet_step(bag, selector, v3, QssPseudo::Focus);
    lemma_sheet_step(bag, selector, v4, QssPseudo::Disabled);
    lemma_sheet_step(bag, selector, v5, QssPseudo::Checked);
    assert(v5.push(QssPseudo::Checked) =~= seq![
        QssPseudo::Base,
        QssPseudo::Hover,
        QssPseudo::Pressed,
        QssPseudo::Focus,
        QssPseudo::Disabled,
        QssPseudo::Checked,
    ]);
}

/// The pseudo-classes add nothing, or a colon and their word, to a selector.
pub proof fn law_suffixes_are_words(p: QssPseudo)
    ensures
        p == QssPseudo::Base ==> pseudo_suffix(p).len() == 0,
        p != QssPseudo::Base ==> exists|w: Seq<char>| #[trigger]
            is_pseudo_word(w) && pseudo_of(w) == Some(p) && pseudo_suffix(p) == ":"@ + w,
{
    reveal_strlit("");
    lemma_pseudo_words("hover"@);
    lemma_pseudo_words("pressed"@);
    lemma_pseudo_words("focus"@);
    lemma_pseudo_words("disabled"@);
    lemma_pseudo_words("checked"@);
    reveal_strlit("hover");
    reveal_strlit("pressed");
    reveal_strlit("focus");
    reveal_strlit("disabled");
    reveal_strlit("checked");
    assert(is_pseudo_word("hover"@));
    assert("pressed"@.len() != "hover"@.len());
    assert(is_pseudo_word("pressed"@));
    assert("focus"@[0] != "hover"@[0]);
    assert("focus"@.len() != "pressed"@.len());
    assert(is_pseudo_word("focus"@));
    assert("disabled"@.len() != "hover"@.len());
    assert("disabled"@.len() != "pressed"@.len());
    assert("disabled"@.len() != "focus"@.len());
    assert(is_pseudo_word("disabled"@));
    assert("checked"@.len() != "hover"@.len());
    assert("checked"@[0] != "pressed"@[0]);
    assert("checked"@.len() != "focus"@.len());
    assert("checked"@.len() != "disabled"@.len());
    assert(is_pseudo_word("checked"@));
}

// ---- the vocabulary ----------------------------------------------------------------

/// What may stand behind the name of a family of keys.
pub open spec fn family_parts(base: Seq<char>) -> Seq<Seq<char>> {
    if base == "padding"@ {
        seq![""@, "Left"@, "Right"@, "Top"@, "Bottom"@]
    } else if base == "margin"@ {
        seq![""@, "Left"@, "Right"@, "Top"@, "Bottom"@]
    } else if base == "border"@ {
        seq![""@, "Radius"@, "Color"@, "Width"@, "Style"@]
    } else if base == "font"@ {
        seq!["Size"@, "Weight"@, "Family"@, "Style"@]
    } else if base == "background"@ {
        seq![""@, "Color"@]
    } else {
        Seq::empty()
    }
}

proof fn lemma_padding_family(part: Seq<char>)
    requires
        seq![""@, "Left"@, "Right"@, "Top"@, "Bottom"@].contains(part),
    ensures
        kebab("padding"@ + part) is Some,
{
    let parts = seq![""@, "Left"@, "Right"@, "Top"@, "Bottom"@];
    let i = choose|i: int| 0 <= i < parts.len() && parts[i] == part;
    assert(i == 0 || i == 1 || i == 2 || i == 3 || i == 4);
    reveal_strlit("");
    reveal_strlit("Bottom");
    reveal_strlit("Left");
    reveal_strlit("Right");
    reveal_strlit("Top");
    reveal_strlit("padding");
    reveal_strlit("paddingBottom");
    reveal_strlit("paddingLeft");
    reveal_strlit("paddingRight");
    reveal_strlit("paddingTop");
    assert("padding"@ =~= "padding"@ + ""@);
    assert("paddingLeft"@ =~= "padding"@ + "Left"@);
    assert("paddingRight"@ =~= "padding"@ + "Right"@);
    assert("paddingTop"@ =~= "padding"@ + "Top"@);
    assert("paddingBottom"@ =~= "padding"@ + "Bottom"@);
}

proof fn lemma_margin_family(part: Seq<char>)
    requires
        seq![""@, "Left"@, "Right"@, "Top"@, "Bottom"@].contains(part),
    ensures
        kebab("margin"@ + part) is Some,
{
    let parts = seq![""@, "Left"@, "Right"@, "Top"@, "Bottom"@];
    let i = choose|i: int| 0 <= i < parts.len() && parts[i] == part;
    assert(i == 0 || i == 1 || i == 2 || i == 3 || i == 4);
    reveal_strlit("");
    reveal_strlit("Bottom");
    reveal_strlit("Left");
    reveal_strlit("Right");
    reveal_strlit("Top");
    reveal_strlit("margin");
    reveal_strlit("marginBottom");
    reveal_strlit("marginLeft");
    reveal_strlit("marginRight");
    reveal_strlit("marginTop");
    assert("margin"@ =~= "margin"@ + ""@);
    assert("marginLeft"@ =~= "margin"@ + "Left"@);
    assert("marginRight"@ =~= "margin"@ + "Right"@);
    assert("marginTop"@ =~= "margin"@ + "Top"@);
    assert("marginBottom"@ =~= "margin"@ + "Bottom"@);
}

proof fn lemma_border_family(part: Seq<char>)
    requires
        seq![""@, "Radius"@, "Color"@, "Width"@, "Style"@].contains(part),
    ensures
        kebab("border"@ + part) is Some,
{
    let parts = seq![""@, "Radius"@, "Color"@, "Width"@, "Style"@];
    let i = choose|i: int| 0 <= i < parts.len() && parts[i] == part;
    assert(i == 0 || i == 1 || i == 2 || i == 3 || i == 4);
    reveal_strlit("");
    reveal_strlit("Color");
    reveal_strlit("Radius");
    reveal_strlit("Style");
    reveal_strlit("Width");
    reveal_strlit("border");
    reveal_strlit("borderColor");
    reveal_strlit("borderRadius");
    reveal_strlit("borderStyle");
    reveal_strlit("borderWidth");
    assert("border"@ =~= "border"@ + ""@);
    assert("borderRadius"@ =~= "border"@ + "Radius"@);
    assert("borderColor"@ =~= "border"@ + "Color"@);
    assert("borderWidth"@ =~= "border"@ + "Width"@);
    assert("borderStyle"@ =~= "border"@ + "Style"@);
}

proof fn lemma_font_family(part: Seq<char>)
    requires
        seq!["Size"@, "Weight"@, "Family"@, "Style"@].contains(part),
    ensures
        kebab("font"@ + part) is Some,
{
    let parts = seq!["Size"@, "Weight"@, "Family"@, "Style"@];
    let i = choose|i: int| 0 <= i < parts.len() && parts[i] == part;
    assert(i == 0 || i == 1 || i == 2 || i == 3);
    reveal_strlit("Family");
    reveal_strlit("Size");
    reveal_strlit("Style");
    reveal_strlit("Weight");
    reveal_strlit("font");
    reveal_strlit("fontFamily");
    reveal_strlit("fontSize");
    reveal_strlit("fontStyle");
    reveal_strlit("fontWeight");
    assert("fontSize"@ =~= "font"@ + "Size"@);
    assert("fontWeight"@ =~= "font"@ + "Weight"@);
    assert("fontFamily"@ =~= "font"@ + "Family"@);
    assert("fontStyle"@ =~= "font"@ + "Style"@);
}

proof fn lemma_background_family(part: Seq<char>)
    requires
        seq![""@, "Color"@].contains(part),
    ensures
        kebab("background"@ + part) is Some,
{
    let parts = seq![""@, "Color"@];
    let i = choose|i: int| 0 <= i < parts.len() && parts[i] == part;
    assert(i == 0 || i == 1);
    reveal_strlit("");
    reveal_strlit("Color");
    reveal_strlit("background");
    reveal_strlit("backgroundColor");
    assert("background"@ =~= "background"@ + ""@);
    assert("backgroundColor"@ =~= "background"@ + "Color"@);
}

/// The vocabulary holds `color`, `textAlign`, every side of paddings and margins,
/// and every part of borders, fonts and backgrounds.
pub proof fn law_families_are_complete(base: Seq<char>, part: Seq<char>)
    requires
        family_parts(base).contains(part),
    ensures
        kebab(base + part) is Some,
        kebab("color"@) is Some,
        kebab("textAlign"@) == Some("qproperty-alignment"@),
{
    reveal_strlit("textAlign");
    reveal_strlit("padding");
    reveal_strlit("paddingLeft");
    reveal_strlit("paddingRight");
    reveal_strlit("paddingTop");
    reveal_strlit("paddingBottom");
    reveal_strlit("margin");
    reveal_strlit("marginLeft");
    reveal_strlit("marginRight");
    reveal_strlit("marginTop");
    reveal_strlit("marginBottom");
    reveal_strlit("border");
    reveal_strlit("borderRadius");
    reveal_strlit("borderColor");
    reveal_strlit("borderWidth");
    reveal_strlit("borderStyle");
    reveal_strlit("fontSize");
    reveal_strlit("fontWeight");
    reveal_strlit("fontFamily");
    reveal_strlit("fontStyle");
    reveal_strlit("background");
    reveal_strlit("backgroundColor");
    reveal_strlit("color");
    assert("padding"@.len() != "textAlign"@.len());
    assert("paddingLeft"@.len() != "textAlign"@.len());
    assert("paddingRight"@.len() != "textAlign"@.len());
    assert("paddingTop"@.len() != "textAlign"@.len());
    assert("paddingBottom"@.len() != "textAlign"@.len());
    assert("margin"@.len() != "textAlign"@.len());
    assert("marginLeft"@.len() != "textAlign"@.len());
    assert("marginRight"@.len() != "textAlign"@.len());
    assert("marginTop"@[0] != "textAlign"@[0]);
    assert("marginBottom"@.len() != "textAlign"@.len());
    assert("border"@.len() != "textAlign"@.len());
    assert("borderRadius"@.len() != "textAlign"@.len());
    assert("borderColor"@.len() != "textAlign"@.len());
    assert("borderWidth"@.len() != "textAlign"@.len());
    assert("borderStyle"@.len() != "textAlign"@.len());
    assert("fontSize"@.len() != "textAlign"@.len());
    assert("fontWeight"@.len() != "textAlign"@.len());
    assert("fontFamily"@.len() != "textAlign"@.len());
    assert("fontStyle"@[0] != "textAlign"@[0]);
    assert("background"@.len() != "textAlign"@.len());
    assert("backgroundColor"@.len() != "textAlign"@.len());
    assert("color"@.len() != "textAlign"@.len());
    if base == "padding"@ {
        lemma_padding_family(part);
    } else if base == "margin"@ {
        lemma_margin_family(part);
    } else if base == "border"@ {
        lemma_border_family(part);
    } else if base == "font"@ {
        lemma_font_family(part);
    } else if base == "background"@ {
        lemma_background_family(part);
    }
}

} // verus!
