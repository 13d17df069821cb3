//! Style-sheet shorthand for widgets.
//!
//! A fixed vocabulary of camel-case keys, with an optional pseudo-class prefix
//! (`hover.background`), is gathered into one style sheet per element. Any
//! other key, and any value that is no literal, goes the way of ordinary
//! properties.

use crate::ast::{Expr, ExprKind, StrPart};
use crate::text::{
    chars_of, index_of, index_of_char, opt_view, same, signed_decimal, signed_decimal_string,
    string_of,
};
use vstd::prelude::*;
use vstd::string::*;

verus! {

/// The pseudo-class of a rule.
#[derive(Debug, Clone, Copy, PartialEq, Eq, Structural, PartialOrd, Ord)]
pub enum QssPseudo {
    Base,
    Hover,
    Pressed,
    Focus,
    Disabled,
    Checked,
}

/// What a pseudo-class adds to a selector.
pub open spec fn pseudo_suffix(p: QssPseudo) -> Seq<char> {
    match p {
        QssPseudo::Base => ""@,
        QssPseudo::Hover => ":hover"@,
        QssPseudo::Pressed => ":pressed"@,
        QssPseudo::Focus => ":focus"@,
        QssPseudo::Disabled => ":disabled"@,
        QssPseudo::Checked => ":checked"@,
    }
}

/// The pseudo-class that a key prefix names.
pub open spec fn pseudo_of(s: Seq<char>) -> Option<QssPseudo> {
    if s == "hover"@ {
        Some(QssPseudo::Hover)
    } else if s == "pressed"@ {
        Some(QssPseudo::Pressed)
    } else if s == "focus"@ {
        Some(QssPseudo::Focus)
    } else if s == "disabled"@ {
        Some(QssPseudo::Disabled)
    } else if s == "checked"@ {
        Some(QssPseudo::Checked)
    } else {
        None
    }
}

impl QssPseudo {
    pub fn suffix(self) -> (r: &'static str)
        ensures
            r@ == pseudo_suffix(self),
    {
        match self {
            QssPseudo::Base => "",
            QssPseudo::Hover => ":hover",
            QssPseudo::Pressed => ":pressed",
            QssPseudo::Focus => ":focus",
            QssPseudo::Disabled => ":disabled",
            QssPseudo::Checked => ":checked",
        }
    }

    pub fn from_prefix(s: &str) -> (r: Option<QssPseudo>)
        ensures
            r == pseudo_of(s@),
    {
        if same(s, "hover") {
            Some(QssPseudo::Hover)
        } else if same(s, "pressed") {
            Some(QssPseudo::Pressed)
        } else if same(s, "focus") {
            Some(QssPseudo::Focus)
        } else if same(s, "disabled") {
            Some(QssPseudo::Disabled)
        } else if same(s, "checked") {
            Some(QssPseudo::Checked)
        } else {
            None
        }
    }
}

/// The style-sheet property of a camel-case key, for the keys of the
/// vocabulary.
pub open spec fn kebab(camel: Seq<char>) -> Option<Seq<char>> {
    if camel == "color"@ {
        Some("color"@)
    } else if camel == "background"@ {
        Some("background"@)
    } else if camel == "backgroundColor"@ {
        Some("background-color"@)
    } else if camel == "border"@ {
        Some("border"@)
    } else if camel == "borderRadius"@ {
        Some("border-radius"@)
    } else if camel == "borderColor"@ {
        Some("border-color"@)
    } else if camel == "borderWidth"@ {
        Some("border-width"@)
    } else if camel == "borderStyle"@ {
        Some("border-style"@)
    } else if camel == "fontSize"@ {
        Some("font-size"@)
    } else if camel == "fontWeight"@ {
        Some("font-weight"@)
    } else if camel == "fontFamily"@ {
        Some("font-family"@)
    } else if camel == "fontStyle"@ {
        Some("font-style"@)
    } else if camel == "padding"@ {
        Some("padding"@)
    } else if camel == "paddingLeft"@ {
        Some("padding-left"@)
    } else if camel == "paddingRight"@ {
        Some("padding-right"@)
    } else if camel == "paddingTop"@ {
        Some("padding-top"@)
    } else if camel == "paddingBottom"@ {
        Some("padding-bottom"@)
    } else if camel == "margin"@ {
        Some("margin"@)
    } else if camel == "marginLeft"@ {
        Some("margin-left"@)
    } else if camel == "marginRight"@ {
        Some("margin-right"@)
    } else if camel == "marginTop"@ {
        Some("margin-top"@)
    } else if camel == "marginBottom"@ {
        Some("margin-bottom"@)
    } else if camel == "textAlign"@ {
        Some("qproperty-alignment"@)
    } else {
        None
    }
}

pub fn kebab_for(camel: &str) -> (r: Option<&'static str>)
    ensures
        match r {
            Some(k) => kebab(camel@) == Some(k@),
            None => kebab(camel@) is None,
        },
{
    if same(camel, "color") {
        Some("color")
    } else if same(camel, "background") {
        Some("background")
    } else if same(camel, "backgroundColor") {
        Some("background-color")
    } else if same(camel, "border") {
        Some("border")
    } else if same(camel, "borderRadius") {
        Some("border-radius")
    } else if same(camel, "borderColor") {
        Some("border-color")
    } else if same(camel, "borderWidth") {
        Some("border-width")
    } else if same(camel, "borderStyle") {
        Some("border-style")
    } else if same(camel, "fontSize") {
        Some("font-size")
    } else if same(camel, "fontWeight") {
        Some("font-weight")
    } else if same(camel, "fontFamily") {
        Some("font-family")
    } else if same(camel, "fontStyle") {
        Some("font-style")
    } else if same(camel, "padding") {
        Some("padding")
    } else if same(camel, "paddingLeft") {
        Some("padding-left")
    } else if same(camel, "paddingRight") {
        Some("padding-right")
    } else if same(camel, "paddingTop") {
        Some("padding-top")
    } else if same(camel, "paddingBottom") {
        Some("padding-bottom")
    } else if same(camel, "margin") {
        Some("margin")
    } else if same(camel, "marginLeft") {
        Some("margin-left")
    } else if same(camel, "marginRight") {
        Some("margin-right")
    } else if same(camel, "marginTop") {
        Some("margin-top")
    } else if same(camel, "marginBottom") {
        Some("margin-bottom")
    } else if same(camel, "textAlign") {
        Some("qproperty-alignment")
    } else {
        None
    }
}

/// The keys whose numbers are lengths in pixels.
pub open spec fn length_key(camel: Seq<char>) -> bool {
    ||| camel == "borderRadius"@
    ||| camel == "borderWidth"@
    ||| camel == "fontSize"@
    ||| camel == "padding"@
    ||| camel == "paddingLeft"@
    ||| camel == "paddingRight"@
    ||| camel == "paddingTop"@
    ||| camel == "paddingBottom"@
    ||| camel == "margin"@
    ||| camel == "marginLeft"@
    ||| camel == "marginRight"@
    ||| camel == "marginTop"@
    ||| camel == "marginBottom"@
}

/// Whether a bare number under this key is a length in pixels.
pub fn is_length_key(camel: &str) -> (r: bool)
    ensures
        r == length_key(camel@),
{
    same(camel, "borderRadius")
        || same(camel, "borderWidth")
        || same(camel, "fontSize")
        || same(camel, "padding")
        || same(camel, "paddingLeft")
        || same(camel, "paddingRight")
        || same(camel, "paddingTop")
        || same(camel, "paddingBottom")
        || same(camel, "margin")
        || same(camel, "marginLeft")
        || same(camel, "marginRight")
        || same(camel, "marginTop")
        || same(camel, "marginBottom")
}

/// The alignment that a `textAlign` value stands for. Other values pass
/// through.
pub open spec fn alignment(s: Seq<char>) -> Seq<char> {
    if s == "left"@ || s == "Left"@ {
        "AlignLeft"@
    } else if s == "right"@ || s == "Right"@ {
        "AlignRight"@
    } else if s == "center"@ || s == "Center"@ {
        "AlignCenter"@
    } else if s == "justify"@ || s == "Justify"@ {
        "AlignJustify"@
    } else {
        s
    }
}

pub fn align_value(s: &str) -> (r: String)
    ensures
        r@ == alignment(s@),
{
    if same(s, "left") || same(s, "Left") {
        "AlignLeft".to_owned()
    } else if same(s, "right") || same(s, "Right") {
        "AlignRight".to_owned()
    } else if same(s, "center") || same(s, "Center") {
        "AlignCenter".to_owned()
    } else if same(s, "justify") || same(s, "Justify") {
        "AlignJustify".to_owned()
    } else {
        s.to_owned()
    }
}

/// A number under a key: with the unit where the key takes a length.
pub open spec fn number_value(camel: Seq<char>, digits: Seq<char>) -> Seq<char> {
    if length_key(camel) {
        digits + "px"@
    } else {
        digits
    }
}

/// The style-sheet value of a literal under a key: none for anything but a
/// number or a plain string.
pub open spec fn value_text(camel: Seq<char>, e: Expr) -> Option<Seq<char>> {
    match e.kind {
        ExprKind::Str(parts) => if parts@.len() == 1 {
            match parts@[0] {
                StrPart::Text(t) => Some(
                    if camel == "textAlign"@ {
                        alignment(t@)
                    } else {
                        t@
                    },
                ),
                _ => None,
            }
        } else {
            None
        },
        ExprKind::Int(n) => Some(number_value(camel, signed_decimal(n as int))),
        ExprKind::Float(text) => Some(number_value(camel, text@)),
        _ => None,
    }
}

fn with_unit(camel: &str, digits: String) -> (r: String)
    ensures
        r@ == number_value(camel@, digits@),
{
    if is_length_key(camel) {
        digits.concat("px")
    } else {
        digits
    }
}

/// The style-sheet value of a literal under a key.
pub fn format_value(camel: &str, e: &Expr) -> (r: Option<String>)
    ensures
        opt_view(r) == value_text(camel@, *e),
{
    match &e.kind {
        ExprKind::Str(parts) => {
            if parts.len() != 1 {
                return None;
            }
            match &parts[0] {
                StrPart::Text(t) => if same(camel, "textAlign") {
                    Some(align_value(t.as_str()))
                } else {
                    Some(t.clone())
                },
                _ => None,
            }
        },
        ExprKind::Int(n) => Some(with_unit(camel, signed_decimal_string(*n))),
        ExprKind::Float(text) => Some(with_unit(camel, text.clone())),
        _ => None,
    }
}

/// How an element property takes part in the style sheet.
#[derive(Debug)]
pub enum QssClass {
    /// The pseudo-class, the style-sheet property and its value.
    Shorthand(QssPseudo, &'static str, String),
    /// An ordinary property.
    Passthrough,
}

/// The pseudo-class and the key proper of a written key: none for a dotted key
/// whose prefix is no pseudo-class.
pub open spec fn split_key(key: Seq<char>) -> Option<(QssPseudo, Seq<char>)> {
    let i = index_of(key, '.');
    if 0 <= i < key.len() {
        match pseudo_of(key.subrange(0, i)) {
            Some(p) => Some((p, key.subrange(i + 1, key.len() as int))),
            None => None,
        }
    } else {
        Some((QssPseudo::Base, key))
    }
}

/// What `classify` answers: a shorthand exactly where the key is in the
/// vocabulary and the value is a literal.
pub open spec fn is_class_of(key: Seq<char>, value: Expr, r: QssClass) -> bool {
    let wanted = match split_key(key) {
        Some((p, base)) => match (kebab(base), value_text(base, value)) {
            (Some(k), Some(v)) => Some((p, k, v)),
            _ => None,
        },
        None => None,
    };
    match r {
        QssClass::Shorthand(p, k, v) => wanted == Some((p, k@, v@)),
        QssClass::Passthrough => wanted is None,
    }
}

/// Decides whether a property belongs to the style sheet.
pub fn classify(key: &str, value: &Expr) -> (r: QssClass)
    ensures
        is_class_of(key@, *value, r),
{
    let v = chars_of(key);
    let n: usize = v.len();
    let i: usize = index_of_char(&v, '.', 0);
    assert(v@.subrange(0, n as int) =~= v@);
    let (pseudo, base) = if i < n {
        let prefix = string_of(&v, 0, i);
        match QssPseudo::from_prefix(prefix.as_str()) {
            Some(p) => (p, string_of(&v, i + 1, n)),
            None => {
                return QssClass::Passthrough;
            },
        }
    } else {
        (QssPseudo::Base, key.to_owned())
    };
    match kebab_for(base.as_str()) {
        Some(k) => match format_value(base.as_str(), value) {
            Some(text) => QssClass::Shorthand(pseudo, k, text),
            None => QssClass::Passthrough,
        },
        None => QssClass::Passthrough,
    }
}

/// The shorthand entries of one element, by pseudo-class.
#[derive(Debug)]
pub struct QssBag {
    pub base: Vec<(&'static str, String)>,
    pub hover: Vec<(&'static str, String)>,
    pub pressed: Vec<(&'static str, String)>,
    pub focus: Vec<(&'static str, String)>,
    pub disabled: Vec<(&'static str, String)>,
    pub checked: Vec<(&'static str, String)>,
}

/// Property and value, as text.
pub open spec fn entry_texts(b: Seq<(&'static str, String)>) -> Seq<(Seq<char>, Seq<char>)> {
    Seq::new(b.len(), |i: int| (b[i].0@, b[i].1@))
}

/// The entries under other keys than `key`, in their order.
pub open spec fn without_key(
    b: Seq<(Seq<char>, Seq<char>)>,
    key: Seq<char>,
) -> Seq<(Seq<char>, Seq<char>)>
    decreases b.len(),
{
    if b.len() == 0 {
        Seq::empty()
    } else if b.last().0 == key {
        without_key(b.drop_last(), key)
    } else {
        without_key(b.drop_last(), key).push(b.last())
    }
}

/// The bucket after a write: the new entry comes last, and replaces an earlier
/// one of its key.
pub open spec fn written(
    b: Seq<(Seq<char>, Seq<char>)>,
    key: Seq<char>,
    value: Seq<char>,
) -> Seq<(Seq<char>, Seq<char>)> {
    without_key(b, key).push((key, value))
}

/// The declarations of a rule.
pub open spec fn declarations(
    s: Seq<char>,
    b: Seq<(Seq<char>, Seq<char>)>,
    n: int,
) -> Seq<char>
    decreases n,
{
    if n <= 0 {
        s
    } else {
        declarations(s, b, n - 1) + b[n - 1].0 + ": "@ + b[n - 1].1 + "; "@
    }
}

/// `s` with the rule of one bucket: nothing where it is empty.
pub open spec fn with_rule(
    s: Seq<char>,
    selector: Seq<char>,
    p: QssPseudo,
    b: Seq<(Seq<char>, Seq<char>)>,
) -> Seq<char> {
    if b.len() == 0 {
        s
    } else {
        let start = if s.len() == 0 {
            s
        } else {
            s + " "@
        };
        declarations(start + selector + pseudo_suffix(p) + " { "@, b, b.len() as int) + "}"@
    }
}

fn append_rule(
    s: String,
    selector: &str,
    p: QssPseudo,
    b: &Vec<(&'static str, String)>,
) -> (r: String)
    ensures
        r@ == with_rule(s@, selector@, p, entry_texts(b@)),
{
    if b.len() == 0 {
        return s;
    }
    let start = if s.as_str().is_empty() {
        s
    } else {
        s.concat(" ")
    };
    let mut out = start.concat(selector).concat(p.suffix()).concat(" { ");
    let ghost head = out@;
    let mut i: usize = 0;
    while i < b.len()
        invariant
            i <= b@.len(),
            out@ == declarations(head, entry_texts(b@), i as int),
        decreases b@.len() - i,
    {
        out = out.concat(b[i].0).concat(": ").concat(b[i].1.as_str()).concat("; ");
        i += 1;
    }
    out.concat("}")
}

/// Leaving out a key that no entry has changes nothing.
proof fn lemma_without_absent(b: Seq<(Seq<char>, Seq<char>)>, key: Seq<char>)
    requires
        forall|i: int| 0 <= i < b.len() ==> (#[trigger] b[i]).0 != key,
    ensures
        without_key(b, key) == b,
    decreases b.len(),
{
    if b.len() > 0 {
        let d = b.drop_last();
        assert forall|i: int| 0 <= i < d.len() implies (#[trigger] d[i]).0 != key by {
            assert(d[i] == b[i]);
        }
        lemma_without_absent(d, key);
        assert(b[b.len() - 1].0 != key);
        assert(d.push(b.last()) =~= b);
    } else {
        assert(b =~= Seq::empty());
    }
}

/// Removing an entry of the key first makes no difference.
proof fn lemma_without_remove(b: Seq<(Seq<char>, Seq<char>)>, key: Seq<char>, i: int)
    requires
        0 <= i < b.len(),
        b[i].0 == key,
    ensures
        without_key(b.remove(i), key) == without_key(b, key),
    decreases b.len(),
{
    if i == b.len() - 1 {
        assert(b.remove(i) =~= b.drop_last());
    } else {
        let d = b.drop_last();
        lemma_without_remove(d, key, i);
        assert(b.remove(i).drop_last() =~= d.remove(i));
        assert(b.remove(i).last() == b.last());
    }
}

fn put(bucket: &mut Vec<(&'static str, String)>, key: &'static str, value: String)
    ensures
        entry_texts(final(bucket)@) == written(entry_texts(old(bucket)@), key@, value@),
{
    let ghost start = entry_texts(bucket@);
    let mut i: usize = 0;
    while i < bucket.len()
        invariant
            i <= bucket@.len(),
            without_key(entry_texts(bucket@), key@) == without_key(start, key@),
            forall|j: int| 0 <= j < i ==> (#[trigger] entry_texts(bucket@)[j]).0 != key@,
        decreases bucket@.len() - i,
    {
        if same(bucket[i].0, key) {
            let ghost before = entry_texts(bucket@);
            proof {
                lemma_without_remove(before, key@, i as int);
            }
            bucket.remove(i);
            assert(entry_texts(bucket@) =~= before.remove(i as int));
            assert forall|j: int| 0 <= j < i implies (#[trigger] entry_texts(bucket@)[j]).0 != key@ by {
                assert(entry_texts(bucket@)[j] == before[j]);
            }
        } else {
            i += 1;
        }
    }
    proof {
        lemma_without_absent(entry_texts(bucket@), key@);
    }
    let ghost before = entry_texts(bucket@);
    bucket.push((key, value));
    assert(entry_texts(bucket@) =~= before.push((key@, value@)));
}

/// The bucket of `p` after the first `n` pushes, each a pseudo-class, a key and
/// a value.
pub open spec fn bucket_after(
    pushes: Seq<(QssPseudo, Seq<char>, Seq<char>)>,
    p: QssPseudo,
    n: int,
) -> Seq<(Seq<char>, Seq<char>)>
    decreases n,
{
    if n <= 0 {
        Seq::empty()
    } else if pushes[n - 1].0 == p {
        written(bucket_after(pushes, p, n - 1), pushes[n - 1].1, pushes[n - 1].2)
    } else {
        bucket_after(pushes, p, n - 1)
    }
}

/// The position of the last of the first `n` pushes that writes `key` for `p`;
/// -1 where none does.
pub open spec fn last_push(
    pushes: Seq<(QssPseudo, Seq<char>, Seq<char>)>,
    p: QssPseudo,
    key: Seq<char>,
    n: int,
) -> int
    decreases n,
{
    if n <= 0 {
        -1
    } else if pushes[n - 1].0 == p && pushes[n - 1].1 == key {
        n - 1
    } else {
        last_push(pushes, p, key, n - 1)
    }
}

/// An entry of the bucket has `key`.
pub open spec fn holds_key(b: Seq<(Seq<char>, Seq<char>)>, key: Seq<char>) -> bool {
    exists|i: int| 0 <= i < b.len() && (#[trigger] b[i]).0 == key
}

/// One of the pushes writes `key` for `p`.
pub open spec fn is_pushed(
    pushes: Seq<(QssPseudo, Seq<char>, Seq<char>)>,
    p: QssPseudo,
    key: Seq<char>,
) -> bool {
    exists|j: int| 0 <= j < pushes.len() && (#[trigger] pushes[j]).0 == p && pushes[j].1 == key
}

proof fn lemma_bucket_prefix(
    a: Seq<(QssPseudo, Seq<char>, Seq<char>)>,
    b: Seq<(QssPseudo, Seq<char>, Seq<char>)>,
    p: QssPseudo,
    n: int,
)
    requires
        n <= a.len(),
        n <= b.len(),
        forall|i: int| 0 <= i < n ==> a[i] == b[i],
    ensures
        bucket_after(a, p, n) == bucket_after(b, p, n),
    decreases n,
{
    if n > 0 {
        lemma_bucket_prefix(a, b, p, n - 1);
    }
}

impl Default for QssBag {
    fn default() -> (r: QssBag)
        ensures
            forall|p: QssPseudo| (#[trigger] r.bucket(p)).len() == 0,
            r.made_by(Seq::empty()),
    {
        let r = QssBag {
            base: Vec::new(),
            hover: Vec::new(),
            pressed: Vec::new(),
            focus: Vec::new(),
            disabled: Vec::new(),
            checked: Vec::new(),
        };
        proof {
            let none = Seq::<(QssPseudo, Seq<char>, Seq<char>)>::empty();
            assert forall|p: QssPseudo| #[trigger] r.bucket(p) == bucket_after(none, p, 0) by {
                assert(r.bucket(p) =~= Seq::empty());
            }
        }
        r
    }
}

impl QssBag {
    /// The entries of a pseudo-class.
    pub open spec fn bucket(self, p: QssPseudo) -> Seq<(Seq<char>, Seq<char>)> {
        match p {
            QssPseudo::Base => entry_texts(self.base@),
            QssPseudo::Hover => entry_texts(self.hover@),
            QssPseudo::Pressed => entry_texts(self.pressed@),
            QssPseudo::Focus => entry_texts(self.focus@),
            QssPseudo::Disabled => entry_texts(self.disabled@),
            QssPseudo::Checked => entry_texts(self.checked@),
        }
    }

    /// The bag holds what the pushes leave, one after the other, of an empty
    /// one.
    pub open spec fn made_by(self, pushes: Seq<(QssPseudo, Seq<char>, Seq<char>)>) -> bool {
        forall|p: QssPseudo| #[trigger]
            self.bucket(p) == bucket_after(pushes, p, pushes.len() as int)
    }

    /// The style sheet of the bag.
    pub open spec fn sheet(self, selector: Seq<char>) -> Seq<char> {
        let s0 = with_rule(""@, selector, QssPseudo::Base, self.bucket(QssPseudo::Base));
        let s1 = with_rule(s0, selector, QssPseudo::Hover, self.bucket(QssPseudo::Hover));
        let s2 = with_rule(s1, selector, QssPseudo::Pressed, self.bucket(QssPseudo::Pressed));
        let s3 = with_rule(s2, selector, QssPseudo::Focus, self.bucket(QssPseudo::Focus));
        let s4 = with_rule(s3, selector, QssPseudo::Disabled, self.bucket(QssPseudo::Disabled));
        with_rule(s4, selector, QssPseudo::Checked, self.bucket(QssPseudo::Checked))
    }

    /// Writes an entry. The last write of a key wins.
    pub fn push(&mut self, pseudo: QssPseudo, key: &'static str, value: String)
        ensures
            forall|p: QssPseudo| #[trigger]
                final(self).bucket(p) == if p == pseudo {
                    written(old(self).bucket(p), key@, value@)
                } else {
                    old(self).bucket(p)
                },
            forall|pushes: Seq<(QssPseudo, Seq<char>, Seq<char>)>| #[trigger]
                old(self).made_by(pushes) ==> final(self).made_by(
                    pushes.push((pseudo, key@, value@)),
                ),
    {
        let ghost vt = value@;
        match pseudo {
            QssPseudo::Base => put(&mut self.base, key, value),
            QssPseudo::Hover => put(&mut self.hover, key, value),
            QssPseudo::Pressed => put(&mut self.pressed, key, value),
            QssPseudo::Focus => put(&mut self.focus, key, value),
            QssPseudo::Disabled => put(&mut self.disabled, key, value),
            QssPseudo::Checked => put(&mut self.checked, key, value),
        }
        proof {
            assert forall|pushes: Seq<(QssPseudo, Seq<char>, Seq<char>)>| #[trigger]
                old(self).made_by(pushes) implies self.made_by(
                pushes.push((pseudo, key@, vt)),
            ) by {
                let all = pushes.push((pseudo, key@, vt));
                let n = pushes.len() as int;
                assert forall|p: QssPseudo| #[trigger] self.bucket(p) == bucket_after(
                    all,
                    p,
                    all.len() as int,
                ) by {
                    lemma_bucket_prefix(all, pushes, p, n);
                    assert(old(self).bucket(p) == bucket_after(pushes, p, n));
                }
            }
        }
    }

    /// Whether nothing was written.
    pub fn is_empty(&self) -> (r: bool)
        ensures
            r == (forall|p: QssPseudo| (#[trigger] self.bucket(p)).len() == 0),
    {
        let r = self.base.len() == 0 && self.hover.len() == 0 && self.pressed.len() == 0
            && self.focus.len() == 0 && self.disabled.len() == 0 && self.checked.len() == 0;
        proof {
            if !r {
                assert(self.bucket(QssPseudo::Base).len() > 0 || self.bucket(QssPseudo::Hover).len() > 0
                    || self.bucket(QssPseudo::Pressed).len() > 0 || self.bucket(
                    QssPseudo::Focus,
                ).len() > 0 || self.bucket(QssPseudo::Disabled).len() > 0 || self.bucket(
                    QssPseudo::Checked,
                ).len() > 0);
            }
        }
        r
    }

    /// The style sheet, each rule scoped by `selector`.
    pub fn render(&self, selector: &str) -> (r: String)
        ensures
            r@ == self.sheet(selector@),
    {
        let s = append_rule("".to_owned(), selector, QssPseudo::Base, &self.base);
        let s = append_rule(s, selector, QssPseudo::Hover, &self.hover);
        let s = append_rule(s, selector, QssPseudo::Pressed, &self.pressed);
        let s = append_rule(s, selector, QssPseudo::Focus, &self.focus);
        let s = append_rule(s, selector, QssPseudo::Disabled, &self.disabled);
        append_rule(s, selector, QssPseudo::Checked, &self.checked)
    }
}

/// The entries that stay are those of other keys.
pub proof fn lemma_without_key(b: Seq<(Seq<char>, Seq<char>)>, key: Seq<char>)
    ensures
        forall|i: int|
            0 <= i < without_key(b, key).len() ==> (#[trigger] without_key(b, key)[i]).0 != key,
    decreases b.len(),
{
    if b.len() > 0 {
        lemma_without_key(b.drop_last(), key);
        let w = without_key(b.drop_last(), key);
        assert forall|i: int| 0 <= i < without_key(b, key).len() implies (#[trigger] without_key(
            b,
            key,
        )[i]).0 != key by {
            if i < w.len() {
                assert(without_key(b, key)[i] == w[i]);
            }
        }
    }
}

/// After a write, the bucket holds the key once, with the value last written.
pub proof fn law_last_write_wins(
    b: Seq<(Seq<char>, Seq<char>)>,
    key: Seq<char>,
    value: Seq<char>,
    i: int,
)
    requires
        0 <= i < written(b, key, value).len(),
        written(b, key, value)[i].0 == key,
    ensures
        i == written(b, key, value).len() - 1,
        written(b, key, value)[i].1 == value,
{
    lemma_without_key(b, key);
    let w = without_key(b, key);
    if i < w.len() {
        assert(written(b, key, value)[i] == w[i]);
    }
}

/// Where keys differ, leaving one out removes at most its entry.
proof fn lemma_without_unique(b: Seq<(Seq<char>, Seq<char>)>, key: Seq<char>, i: int)
    requires
        0 <= i < b.len(),
        b[i].0 == key,
        forall|x: int, y: int|
            0 <= x < y < b.len() ==> (#[trigger] b[x]).0 != (#[trigger] b[y]).0,
    ensures
        without_key(b, key) == b.remove(i),
{
    lemma_without_remove(b, key, i);
    let r = b.remove(i);
    assert forall|j: int| 0 <= j < r.len() implies (#[trigger] r[j]).0 != key by {
        if j < i {
            assert(r[j] == b[j]);
        } else {
            assert(r[j] == b[j + 1]);
        }
    }
    lemma_without_absent(r, key);
}

/// `last_push` is the last push of its key.
proof fn lemma_last_push(
    pushes: Seq<(QssPseudo, Seq<char>, Seq<char>)>,
    p: QssPseudo,
    key: Seq<char>,
    n: int,
)
    requires
        0 <= n <= pushes.len(),
    ensures
        -1 <= last_push(pushes, p, key, n) < n,
        last_push(pushes, p, key, n) >= 0 ==> pushes[last_push(pushes, p, key, n)].0 == p
            && pushes[last_push(pushes, p, key, n)].1 == key,
        forall|j: int|
            last_push(pushes, p, key, n) < j < n ==> !((#[trigger] pushes[j]).0 == p
                && pushes[j].1 == key),
    decreases n,
{
    if n > 0 {
        lemma_last_push(pushes, p, key, n - 1);
    }
}

/// What holds of the bucket of `p` after the first `n` pushes.
spec fn holds_last_pushes(
    pushes: Seq<(QssPseudo, Seq<char>, Seq<char>)>,
    p: QssPseudo,
    n: int,
) -> bool {
    let b = bucket_after(pushes, p, n);
    &&& forall|i: int|
        0 <= i < b.len() ==> {
            let l = last_push(pushes, p, (#[trigger] b[i]).0, n);
            l >= 0 && b[i].1 == pushes[l].2
        }
    &&& forall|i: int, j: int|
        0 <= i < j < b.len() ==> last_push(pushes, p, (#[trigger] b[i]).0, n) < last_push(
            pushes,
            p,
            (#[trigger] b[j]).0,
            n,
        )
    &&& forall|key: Seq<char>|
        #[trigger] last_push(pushes, p, key, n) >= 0 ==> holds_key(b, key)
}

proof fn lemma_holds_last_pushes(
    pushes: Seq<(QssPseudo, Seq<char>, Seq<char>)>,
    p: QssPseudo,
    n: int,
)
    requires
        0 <= n <= pushes.len(),
    ensures
        holds_last_pushes(pushes, p, n),
    decreases n,
{
    if n > 0 {
        lemma_holds_last_pushes(pushes, p, n - 1);
        let a = bucket_after(pushes, p, n - 1);
        let b = bucket_after(pushes, p, n);
        let (q, key, value) = pushes[n - 1];
        assert forall|k: Seq<char>| #[trigger]
            last_push(pushes, p, k, n - 1) < n - 1 by {
            lemma_last_push(pushes, p, k, n - 1);
        }
        if q == p {
            assert forall|x: int, y: int| 0 <= x < y < a.len() implies (#[trigger] a[x]).0 != (
            #[trigger] a[y]).0 by {
                assert(last_push(pushes, p, a[x].0, n - 1) < last_push(pushes, p, a[y].0, n - 1));
            }
            if holds_key(a, key) {
                let i = choose|i: int| 0 <= i < a.len() && (#[trigger] a[i]).0 == key;
                lemma_without_unique(a, key, i);
                assert(b == a.remove(i).push((key, value)));
                assert forall|k: Seq<char>| #[trigger]
                    last_push(pushes, p, k, n) >= 0 implies holds_key(b, k) by {
                    if k == key {
                        assert(b[b.len() - 1].0 == k);
                    } else {
                        assert(last_push(pushes, p, k, n - 1) >= 0);
                        let y = choose|y: int| 0 <= y < a.len() && (#[trigger] a[y]).0 == k;
                        if y < i {
                            assert(b[y] == a[y]);
                        } else {
                            assert(b[y - 1] == a[y]);
                        }
                    }
                }
                assert forall|x: int| 0 <= x < b.len() implies {
                    let l = last_push(pushes, p, (#[trigger] b[x]).0, n);
                    l >= 0 && b[x].1 == pushes[l].2
                } by {
                    if x < i {
                        assert(b[x] == a[x]);
                    } else if x < b.len() - 1 {
                        assert(b[x] == a[x + 1]);
                    }
                }
            } else {
                lemma_without_absent(a, key);
                assert(b == a.push((key, value)));
                assert forall|k: Seq<char>| #[trigger]
                    last_push(pushes, p, k, n) >= 0 implies holds_key(b, k) by {
                    if k == key {
                        assert(b[b.len() - 1].0 == k);
                    } else {
                        assert(last_push(pushes, p, k, n - 1) >= 0);
                        let y = choose|y: int| 0 <= y < a.len() && (#[trigger] a[y]).0 == k;
                        assert(b[y] == a[y]);
                    }
                }
                assert forall|x: int| 0 <= x < b.len() implies {
                    let l = last_push(pushes, p, (#[trigger] b[x]).0, n);
                    l >= 0 && b[x].1 == pushes[l].2
                } by {
                    if x < a.len() {
                        assert(b[x] == a[x]);
                    }
                }
            }
            lemma_order_kept(pushes, p, n);
        } else {
            assert forall|k: Seq<char>| #[trigger]
                last_push(pushes, p, k, n) == last_push(pushes, p, k, n - 1) by {}
        }
    }
}

/// A push for `p` keeps the bucket in the order of the last pushes.
proof fn lemma_order_kept(
    pushes: Seq<(QssPseudo, Seq<char>, Seq<char>)>,
    p: QssPseudo,
    n: int,
)
    requires
        0 < n <= pushes.len(),
        pushes[n - 1].0 == p,
        holds_last_pushes(pushes, p, n - 1),
    ensures
        ({
            let b = bucket_after(pushes, p, n);
            forall|i: int, j: int|
                0 <= i < j < b.len() ==> last_push(pushes, p, (#[trigger] b[i]).0, n) < last_push(
                    pushes,
                    p,
                    (#[trigger] b[j]).0,
                    n,
                )
        }),
{
    let a = bucket_after(pushes, p, n - 1);
    let b = bucket_after(pushes, p, n);
    let key = pushes[n - 1].1;
    let w = without_key(a, key);
    lemma_without_key(a, key);
    assert forall|x: int, y: int| 0 <= x < y < a.len() implies (#[trigger] a[x]).0 != (
    #[trigger] a[y]).0 by {
        assert(last_push(pushes, p, a[x].0, n - 1) < last_push(pushes, p, a[y].0, n - 1));
    }
    let gone = if holds_key(a, key) {
        let i = choose|i: int| 0 <= i < a.len() && (#[trigger] a[i]).0 == key;
        lemma_without_unique(a, key, i);
        i
    } else {
        lemma_without_absent(a, key);
        a.len() as int
    };
    assert forall|i: int, j: int| 0 <= i < j < b.len() implies last_push(
        pushes,
        p,
        (#[trigger] b[i]).0,
        n,
    ) < last_push(pushes, p, (#[trigger] b[j]).0, n) by {
        assert(b[i] == w[i]);
        assert(w[i].0 != key);
        lemma_last_push(pushes, p, b[i].0, n - 1);
        if j < b.len() - 1 {
            assert(b[j] == w[j]);
            assert(w[j].0 != key);
            let x = if i < gone { i } else { i + 1 };
            let y = if j < gone { j } else { j + 1 };
            assert(w[i] == a[x]);
            assert(w[j] == a[y]);
            assert(last_push(pushes, p, a[x].0, n - 1) < last_push(pushes, p, a[y].0, n - 1));
        }
    }
}

/// Of a bag made by any sequence of pushes, the bucket of a pseudo-class holds
/// exactly the keys that were pushed for it: each once, with the value of its
/// last push, in the order of the last pushes.
pub proof fn law_bag_holds_last_pushes(
    bag: QssBag,
    pushes: Seq<(QssPseudo, Seq<char>, Seq<char>)>,
    p: QssPseudo,
)
    requires
        bag.made_by(pushes),
    ensures
        forall|i: int, j: int|
            0 <= i < j < bag.bucket(p).len() ==> (#[trigger] bag.bucket(p)[i]).0 != (
            #[trigger] bag.bucket(p)[j]).0,
        forall|key: Seq<char>| #[trigger]
            holds_key(bag.bucket(p), key) <==> is_pushed(pushes, p, key),
        forall|i: int|
            0 <= i < bag.bucket(p).len() ==> {
                let l = last_push(pushes, p, (#[trigger] bag.bucket(p)[i]).0, pushes.len() as int);
                &&& 0 <= l < pushes.len()
                &&& pushes[l] == (p, bag.bucket(p)[i].0, bag.bucket(p)[i].1)
                &&& forall|j: int|
                    l < j < pushes.len() ==> !((#[trigger] pushes[j]).0 == p && pushes[j].1
                        == bag.bucket(p)[i].0)
            },
        forall|i: int, j: int|
            0 <= i < j < bag.bucket(p).len() ==> last_push(
                pushes,
                p,
                (#[trigger] bag.bucket(p)[i]).0,
                pushes.len() as int,
            ) < last_push(pushes, p, (#[trigger] bag.bucket(p)[j]).0, pushes.len() as int),
{
    let n = pushes.len() as int;
    let b = bag.bucket(p);
    lemma_holds_last_pushes(pushes, p, n);
    assert forall|key: Seq<char>| #[trigger]
        holds_key(b, key) <==> is_pushed(pushes, p, key) by {
        lemma_last_push(pushes, p, key, n);
        if holds_key(b, key) {
            let i = choose|i: int| 0 <= i < b.len() && (#[trigger] b[i]).0 == key;
            let l = last_push(pushes, p, b[i].0, n);
            assert(pushes[l].0 == p && pushes[l].1 == key);
        }
        if is_pushed(pushes, p, key) {
            assert(last_push(pushes, p, key, n) >= 0);
        }
    }
    assert forall|i: int| 0 <= i < b.len() implies {
        let l = last_push(pushes, p, (#[trigger] b[i]).0, n);
        &&& 0 <= l < n
        &&& pushes[l] == (p, b[i].0, b[i].1)
        &&& forall|j: int|
            l < j < n ==> !((#[trigger] pushes[j]).0 == p && pushes[j].1 == b[i].0)
    } by {
        lemma_last_push(pushes, p, b[i].0, n);
    }
    assert forall|i: int, j: int| 0 <= i < j < b.len() implies (#[trigger] b[i]).0 != (
    #[trigger] b[j]).0 by {
        assert(last_push(pushes, p, b[i].0, n) < last_push(pushes, p, b[j].0, n));
    }
}

} // verus!
