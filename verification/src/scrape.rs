//! What only the text of a class shows: its signals and its properties.

use crate::cpp::{known, lookup, opt_ty, or_else, plain, strip_const, CppClass, Token, TokenKind};
use crate::dict::Dict;
use crate::qpi_types::{property_views, ty_view, CuteType, Property, PropertyView, Ty};
use crate::text::{
    after_last, contains_string, has_prefix, join, joined, lemma_views_push, opt_view, replace,
    replaced, rest_after_last, same, starts_with, trim, trimmed, views,
};
use crate::typesystem::texts;
use vstd::prelude::*;
use vstd::string::*;

verus! {

// ---- declarations -------------------------------------------------------------------

#[derive(Debug, Clone, Copy, PartialEq, Eq, Structural)]
pub enum DeclKind {
    Enum,
    /// A `typedef` or a `using`.
    Alias,
    Namespace,
    Class,
    Struct,
    ClassTemplate,
    Other,
}

/// What an alias stands for.
#[derive(Debug)]
pub struct AliasTarget {
    /// The type with its aliases resolved.
    pub canonical: String,
    pub is_enum: bool,
}

/// A token where it was written.
#[derive(Debug)]
pub struct SourceToken {
    /// What separates it from the token before.
    pub gap: String,
    pub spelling: String,
}

/// A constant of an enum.
#[derive(Debug)]
pub struct EnumConstant {
    pub name: Option<String>,
    /// The tokens, where the range is known.
    pub tokens: Option<Vec<SourceToken>>,
}

/// A declaration in a header.
#[derive(Debug)]
pub struct Decl {
    pub kind: DeclKind,
    pub name: Option<String>,
    pub is_definition: bool,
    pub alias: Option<AliasTarget>,
    pub constants: Vec<EnumConstant>,
    /// The body of a class or a struct.
    pub class: Option<CppClass>,
    pub children: Vec<Decl>,
}

/// The names of an enum: alone, behind the name of what it stands in, and
/// behind that and the name of what surrounds it.
pub open spec fn enum_name(
    name: Option<Seq<char>>,
    parent: Option<Seq<char>>,
    outer: Option<Seq<char>>,
) -> Seq<Seq<char>> {
    match name {
        Some(n) => match parent {
            Some(p) => match outer {
                Some(o) => seq![n, p + "::"@ + n, o + "::"@ + p + "::"@ + n],
                None => seq![n, p + "::"@ + n],
            },
            None => seq![n],
        },
        None => Seq::empty(),
    }
}

/// The alias stands for an enum or for flags.
pub open spec fn is_enum_alias(a: Option<AliasTarget>) -> bool {
    match a {
        Some(t) => t.is_enum || starts_with(t.canonical@, "QFlags<"@),
        None => false,
    }
}

/// The names of the enums that a declaration holds.
pub open spec fn enum_names_in(
    d: Decl,
    parent: Option<Seq<char>>,
    outer: Option<Seq<char>>,
) -> Seq<Seq<char>>
    decreases d, 0nat,
{
    match d.kind {
        DeclKind::Enum => enum_name(opt_view(d.name), parent, outer),
        DeclKind::Alias => if is_enum_alias(d.alias) {
            enum_name(opt_view(d.name), parent, outer)
        } else {
            Seq::empty()
        },
        DeclKind::Namespace | DeclKind::Class | DeclKind::Struct | DeclKind::ClassTemplate => {
            enum_names_of(d.children, opt_view(d.name), parent, d.children@.len())
        },
        DeclKind::Other => Seq::empty(),
    }
}

/// The names of the enums that the first `n` declarations hold.
pub open spec fn enum_names_of(
    v: Vec<Decl>,
    parent: Option<Seq<char>>,
    outer: Option<Seq<char>>,
    n: nat,
) -> Seq<Seq<char>>
    decreases v, n,
{
    if n == 0 || n > v@.len() {
        Seq::empty()
    } else {
        enum_names_of(v, parent, outer, (n - 1) as nat) + enum_names_in(v@[n - 1], parent, outer)
    }
}

fn push_name(
    out: Vec<String>,
    name: &Option<String>,
    parent: &Option<String>,
    outer: &Option<String>,
) -> (r: Vec<String>)
    ensures
        views(r@) == views(out@) + enum_name(opt_view(*name), opt_view(*parent), opt_view(*outer)),
{
    let ghost start = out@;
    let mut out = out;
    match name {
        Some(n) => {
            out.push(n.clone());
            match parent {
                Some(p) => {
                    out.push(p.clone().concat("::").concat(n.as_str()));
                    match outer {
                        Some(o) => {
                            out.push(
                                o.clone().concat("::").concat(p.as_str()).concat("::").concat(
                                    n.as_str(),
                                ),
                            );
                        },
                        None => {},
                    }
                },
                None => {},
            }
        },
        None => {},
    }
    assert(views(out@) =~= views(start) + enum_name(
        opt_view(*name),
        opt_view(*parent),
        opt_view(*outer),
    ));
    out
}

/// The names of the enums that declarations hold. An enum is known by its own
/// name, and by its name behind those of up to two scopes around it.
pub fn collect_enum_names(
    decls: &Vec<Decl>,
    parent: &Option<String>,
    outer: &Option<String>,
    out: Vec<String>,
) -> (r: Vec<String>)
    ensures
        views(r@) == views(out@) + enum_names_of(
            *decls,
            opt_view(*parent),
            opt_view(*outer),
            decls@.len(),
        ),
    decreases *decls,
{
    let ghost start = views(out@);
    let mut out = out;
    assert(start =~= start + Seq::<Seq<char>>::empty());
    let mut i: usize = 0;
    while i < decls.len()
        invariant
            i <= decls@.len(),
            views(out@) == start + enum_names_of(
                *decls,
                opt_view(*parent),
                opt_view(*outer),
                i as nat,
            ),
        decreases decls@.len() - i,
    {
        let d = &decls[i];
        let ghost done = enum_names_of(*decls, opt_view(*parent), opt_view(*outer), i as nat);
        let ghost new = enum_names_in(*d, opt_view(*parent), opt_view(*outer));
        assert((start + done) + new =~= start + (done + new));
        assert(views(out@) + Seq::<Seq<char>>::empty() =~= views(out@));
        match d.kind {
            DeclKind::Enum => {
                out = push_name(out, &d.name, parent, outer);
            },
            DeclKind::Alias => {
                let on = match &d.alias {
                    Some(t) => t.is_enum || has_prefix(t.canonical.as_str(), "QFlags<"),
                    None => false,
                };
                if on {
                    out = push_name(out, &d.name, parent, outer);
                }
            },
            DeclKind::Namespace | DeclKind::Class | DeclKind::Struct | DeclKind::ClassTemplate => {
                assert(decreases_to!(*decls => decls[i as int]));
                out = collect_enum_names(&d.children, &d.name, parent, out);
            },
            DeclKind::Other => {},
        }
        i += 1;
    }
    out
}

// ---- signals ------------------------------------------------------------------------

/// What is known after some tokens: whether a section of signals is open, and
/// the lines of such sections.
pub struct SignalScan {
    pub open: bool,
    pub last: u32,
    pub lines: Seq<u32>,
}

/// The token closes a section.
pub open spec fn closes_section(t: Token) -> bool {
    t.kind == TokenKind::Keyword && (t.spelling@ == "public"@ || t.spelling@ == "private"@
        || t.spelling@ == "protected"@)
}

/// Token `i` opens a section of signals.
pub open spec fn opens_signals(v: Seq<Token>, i: int) -> bool {
    v[i].kind == TokenKind::Identifier && (v[i].spelling@ == "signals"@ || v[i].spelling@
        == "Q_SIGNALS"@) && i + 1 < v.len() && v[i + 1].spelling@ == ":"@
}

/// What is known after the first `n` tokens.
pub open spec fn signal_scan(v: Seq<Token>, n: int) -> SignalScan
    decreases n,
{
    if n <= 0 {
        SignalScan { open: false, last: 0, lines: Seq::empty() }
    } else {
        let s = signal_scan(v, n - 1);
        let t = v[n - 1];
        let open = opens_signals(v, n - 1) || (s.open && !closes_section(t));
        if open && t.line != s.last {
            SignalScan { open, last: t.line, lines: s.lines.push(t.line) }
        } else {
            SignalScan { open, ..s }
        }
    }
}

/// The lines of sections of signals.
pub fn signal_lines(tokens: &Vec<Token>) -> (r: Vec<u32>)
    ensures
        r@ == signal_scan(tokens@, tokens@.len() as int).lines,
{
    let n: usize = tokens.len();
    let mut open = false;
    let mut last: u32 = 0;
    let mut lines: Vec<u32> = Vec::new();
    let mut i: usize = 0;
    while i < n
        invariant
            i <= n,
            n == tokens@.len(),
            signal_scan(tokens@, i as int) == (SignalScan { open, last, lines: lines@ }),
        decreases n - i,
    {
        let t = &tokens[i];
        let s = t.spelling.as_str();
        match t.kind {
            TokenKind::Keyword => {
                if same(s, "public") || same(s, "private") || same(s, "protected") {
                    open = false;
                }
            },
            TokenKind::Identifier => {
                if (same(s, "signals") || same(s, "Q_SIGNALS")) && n - i > 1 && same(
                    tokens[i + 1].spelling.as_str(),
                    ":",
                ) {
                    open = true;
                }
            },
            TokenKind::Other => {},
        }
        if open && t.line != last {
            lines.push(t.line);
            last = t.line;
        }
        i += 1;
    }
    lines
}

// ---- properties -----------------------------------------------------------------------

/// The words that may follow the name of a property.
pub open spec fn is_modifier(s: Seq<char>) -> bool {
    ||| s == "READ"@
    ||| s == "WRITE"@
    ||| s == "NOTIFY"@
    ||| s == "RESET"@
    ||| s == "BINDABLE"@
    ||| s == "MEMBER"@
    ||| s == "DESIGNABLE"@
    ||| s == "SCRIPTABLE"@
    ||| s == "STORED"@
    ||| s == "USER"@
    ||| s == "CONSTANT"@
    ||| s == "FINAL"@
    ||| s == "REQUIRED"@
    ||| s == "REVISION"@
    ||| s == "PRIVATE"@
}

/// The first modifier among the tokens from `i` to `end`, or `end`.
pub open spec fn first_modifier(v: Seq<Token>, i: int, end: int) -> int
    decreases end - i,
{
    if i >= end || is_modifier(v[i].spelling@) {
        i
    } else {
        first_modifier(v, i + 1, end)
    }
}

pub open spec fn spellings(v: Seq<Token>) -> Seq<Seq<char>> {
    Seq::new(v.len(), |i: int| v[i].spelling@)
}

/// The type that tokens spell.
pub open spec fn spelled_type(v: Seq<Token>) -> Seq<char> {
    trim(replace(replace(join(spellings(v), " "@), " ::"@, "::"@), ":: "@, "::"@))
}

/// The type of a property by the spelling of its C++ type: one that is known,
/// with its namespace or without it; the enum that a type of flags is named
/// after; a number for another enum.
pub open spec fn property_type(
    spelled: Seq<char>,
    map: Map<Seq<char>, Seq<char>>,
    enums: Seq<Seq<char>>,
) -> Option<Ty> {
    let bare = trim(after_last(spelled, "::"@));
    or_else(
        known(map, spelled),
        or_else(
            known(map, bare),
            or_else(
                known(map, bare + "Flag"@),
                if enums.contains(spelled) || enums.contains(bare) {
                    Some(Ty::Named("Int"@))
                } else {
                    None
                },
            ),
        ),
    )
}

/// The property that the tokens from `a` to `b` declare: a type, a name and
/// modifiers.
pub open spec fn property_in(
    v: Seq<Token>,
    a: int,
    b: int,
    map: Map<Seq<char>, Seq<char>>,
    enums: Seq<Seq<char>>,
) -> Option<PropertyView> {
    let m = first_modifier(v, a, b);
    if m >= b || m < a + 2 {
        None
    } else {
        match property_type(spelled_type(v.subrange(a, m - 1)), map, enums) {
            Some(ty) => Some(PropertyView { name: v[m - 1].spelling@, ty }),
            None => None,
        }
    }
}

/// Where the bracket closes that is open `depth` times at `i`, or the end.
pub open spec fn closing(v: Seq<Token>, i: int, depth: int) -> int
    decreases v.len() - i,
{
    if i >= v.len() {
        v.len() as int
    } else {
        let d = if v[i].spelling@ == "("@ {
            depth + 1
        } else if v[i].spelling@ == ")"@ {
            depth - 1
        } else {
            depth
        };
        if d == 0 {
            i
        } else {
            closing(v, i + 1, d)
        }
    }
}

pub proof fn lemma_closing(v: Seq<Token>, i: int, depth: int)
    requires
        0 <= i <= v.len(),
    ensures
        i <= closing(v, i, depth) <= v.len(),
    decreases v.len() - i,
{
    if i < v.len() {
        let d = if v[i].spelling@ == "("@ {
            depth + 1
        } else if v[i].spelling@ == ")"@ {
            depth - 1
        } else {
            depth
        };
        if d != 0 {
            lemma_closing(v, i + 1, d);
        }
    }
}

/// A list with at most one property.
pub open spec fn at_most_one(p: Option<PropertyView>) -> Seq<PropertyView> {
    match p {
        Some(p) => seq![p],
        None => Seq::empty(),
    }
}

/// The properties that the tokens from `i` on declare. One whose bracket stays
/// open is passed over, and the search goes on inside it.
pub open spec fn properties_from(
    v: Seq<Token>,
    i: int,
    map: Map<Seq<char>, Seq<char>>,
    enums: Seq<Seq<char>>,
) -> Seq<PropertyView>
    decreases v.len() - i,
    via properties_from_decreases
{
    if i < 0 || i >= v.len() {
        Seq::empty()
    } else if v[i].spelling@ == "Q_PROPERTY"@ && i + 1 < v.len() && v[i + 1].spelling@ == "("@ {
        let end = closing(v, i + 2, 1);
        if end >= v.len() {
            properties_from(v, i + 2, map, enums)
        } else {
            at_most_one(property_in(v, i + 2, end, map, enums)) + properties_from(
                v,
                end + 1,
                map,
                enums,
            )
        }
    } else {
        properties_from(v, i + 1, map, enums)
    }
}

#[via_fn]
proof fn properties_from_decreases(
    v: Seq<Token>,
    i: int,
    map: Map<Seq<char>, Seq<char>>,
    enums: Seq<Seq<char>>,
) {
    if 0 <= i && i + 1 < v.len() {
        lemma_closing(v, i + 2, 1);
    }
}

fn names_modifier(s: &str) -> (r: bool)
    ensures
        r == is_modifier(s@),
{
    same(s, "READ") || same(s, "WRITE") || same(s, "NOTIFY") || same(s, "RESET") || same(
        s,
        "BINDABLE",
    ) || same(s, "MEMBER") || same(s, "DESIGNABLE") || same(s, "SCRIPTABLE") || same(s, "STORED")
        || same(s, "USER") || same(s, "CONSTANT") || same(s, "FINAL") || same(s, "REQUIRED")
        || same(s, "REVISION") || same(s, "PRIVATE")
}

fn spell_type(v: &Vec<Token>, a: usize, b: usize) -> (r: String)
    requires
        a <= b <= v@.len(),
    ensures
        r@ == spelled_type(v@.subrange(a as int, b as int)),
{
    let ghost want = spellings(v@.subrange(a as int, b as int));
    let mut parts: Vec<String> = Vec::new();
    let mut i: usize = a;
    while i < b
        invariant
            a <= i <= b <= v@.len(),
            want == spellings(v@.subrange(a as int, b as int)),
            views(parts@) == want.take(i - a),
        decreases b - i,
    {
        let s = v[i].spelling.clone();
        proof {
            lemma_views_push(parts@, s);
            assert(want[i - a] == s@);
        }
        parts.push(s);
        i += 1;
        assert(views(parts@) =~= want.take(i - a));
    }
    assert(views(parts@) =~= want);
    proof {
        reveal_strlit(" ::");
        reveal_strlit(":: ");
    }
    let text = joined(&parts, " ");
    let text = replaced(text.as_str(), " ::", "::");
    let text = replaced(text.as_str(), ":: ", "::");
    trimmed(text.as_str())
}

fn type_property(spelled: &str, map: &Dict<String>, enums: &Vec<String>) -> (r: Option<CuteType>)
    ensures
        opt_ty(r) == property_type(spelled@, texts(map@), views(enums@)),
{
    let bare = trimmed(rest_after_last(spelled, "::").as_str());
    match lookup(map, spelled) {
        Some(t) => {
            return Some(t);
        },
        None => {},
    }
    match lookup(map, bare.as_str()) {
        Some(t) => {
            return Some(t);
        },
        None => {},
    }
    match lookup(map, bare.clone().concat("Flag").as_str()) {
        Some(t) => {
            return Some(t);
        },
        None => {},
    }
    if contains_string(enums, spelled) || contains_string(enums, bare.as_str()) {
        Some(CuteType::Named("Int".to_owned()))
    } else {
        None
    }
}

/// A property by its view.
pub open spec fn opt_property(p: Option<Property>) -> Option<PropertyView> {
    match p {
        Some(p) => Some(PropertyView { name: p.name@, ty: ty_view(p.ty) }),
        None => None,
    }
}

/// The property that the tokens from `a` to `b` declare.
pub fn parse_property_body(
    tokens: &Vec<Token>,
    a: usize,
    b: usize,
    type_map: &Dict<String>,
    enum_names: &Vec<String>,
) -> (r: Option<Property>)
    requires
        a <= b <= tokens@.len(),
    ensures
        opt_property(r) == property_in(
            tokens@,
            a as int,
            b as int,
            texts(type_map@),
            views(enum_names@),
        ),
{
    let mut m: usize = a;
    while m < b && !names_modifier(tokens[m].spelling.as_str())
        invariant
            a <= m <= b <= tokens@.len(),
            first_modifier(tokens@, a as int, b as int) == first_modifier(
                tokens@,
                m as int,
                b as int,
            ),
        decreases b - m,
    {
        m += 1;
    }
    if m >= b || m - a < 2 {
        return None;
    }
    let spelled = spell_type(tokens, a, m - 1);
    match type_property(spelled.as_str(), type_map, enum_names) {
        Some(ty) => Some(Property { name: tokens[m - 1].spelling.clone(), ty }),
        None => None,
    }
}

fn find_closing(tokens: &Vec<Token>, from: usize) -> (r: usize)
    requires
        1 <= from <= tokens@.len(),
    ensures
        r == closing(tokens@, from as int, 1),
        from <= r <= tokens@.len(),
{
    let n: usize = tokens.len();
    let mut depth: usize = 1;
    let mut i: usize = from;
    while i < n
        invariant
            1 <= from <= i <= n,
            n == tokens@.len(),
            1 <= depth <= 1 + (i - from),
            closing(tokens@, from as int, 1) == closing(tokens@, i as int, depth as int),
        decreases n - i,
    {
        let s = tokens[i].spelling.as_str();
        if same(s, "(") {
            depth += 1;
        } else if same(s, ")") {
            if depth == 1 {
                return i;
            }
            depth -= 1;
        }
        i += 1;
    }
    n
}

/// The properties that the tokens of a class declare.
pub fn scan_properties(
    tokens: &Vec<Token>,
    type_map: &Dict<String>,
    enum_names: &Vec<String>,
) -> (r: Vec<Property>)
    ensures
        property_views(r@) == properties_from(
            tokens@,
            0,
            texts(type_map@),
            views(enum_names@),
        ),
{
    let n: usize = tokens.len();
    let ghost t = texts(type_map@);
    let ghost e = views(enum_names@);
    let mut out: Vec<Property> = Vec::new();
    let mut i: usize = 0;
    assert(property_views(out@) + properties_from(tokens@, 0, t, e) =~= properties_from(
        tokens@,
        0,
        t,
        e,
    ));
    while i < n
        invariant
            i <= n,
            n == tokens@.len(),
            t == texts(type_map@),
            e == views(enum_names@),
            property_views(out@) + properties_from(tokens@, i as int, t, e) == properties_from(
                tokens@,
                0,
                t,
                e,
            ),
        decreases n - i,
    {
        if same(tokens[i].spelling.as_str(), "Q_PROPERTY") && n - i > 1 && same(
            tokens[i + 1].spelling.as_str(),
            "(",
        ) {
            let end = find_closing(tokens, i + 2);
            if end >= n {
                i += 2;
            } else {
                let ghost before = property_views(out@);
                let ghost rest = properties_from(tokens@, end + 1, t, e);
                let p = parse_property_body(tokens, i + 2, end, type_map, enum_names);
                let ghost one = at_most_one(opt_property(p));
                match p {
                    Some(p) => {
                        out.push(p);
                    },
                    None => {},
                }
                proof {
                    assert(property_views(out@) =~= before + one);
                    assert((before + one) + rest =~= before + (one + rest));
                }
                i = end + 1;
            }
        } else {
            i += 1;
        }
    }
    assert(property_views(out@) + Seq::<PropertyView>::empty() =~= property_views(out@));
    out
}

// ---- bases --------------------------------------------------------------------------

/// The first of the base classes from `i` on whose type is known, without its
/// namespace.
pub open spec fn first_base(v: Seq<Option<String>>, i: int) -> Option<Seq<char>>
    decreases v.len() - i,
{
    if i < 0 || i >= v.len() {
        None
    } else {
        match v[i] {
            Some(d) => Some(after_last(trim(plain(d@)), "::"@)),
            None => first_base(v, i + 1),
        }
    }
}

/// The base class.
pub fn detect_base(v: &Vec<Option<String>>) -> (r: Option<String>)
    ensures
        opt_view(r) == first_base(v@, 0),
{
    let mut i: usize = 0;
    while i < v.len()
        invariant
            i <= v@.len(),
            first_base(v@, 0) == first_base(v@, i as int),
        decreases v@.len() - i,
    {
        match &v[i] {
            Some(d) => {
                let t = trimmed(strip_const(d.as_str()).as_str());
                return Some(rest_after_last(t.as_str(), "::"));
            },
            None => {},
        }
        i += 1;
    }
    None
}

/// What the text of a class shows.
#[derive(Debug)]
pub struct ClassBodyScrape {
    pub signal_lines: Vec<u32>,
    pub properties: Vec<Property>,
    pub super_name: Option<String>,
}

/// What the text of a class shows; of a class without a range only the base
/// class is known.
pub open spec fn is_scrape(
    r: ClassBodyScrape,
    class: CppClass,
    map: Map<Seq<char>, Seq<char>>,
    enums: Seq<Seq<char>>,
) -> bool {
    &&& opt_view(r.super_name) == first_base(class.bases@, 0)
    &&& match class.tokens {
        Some(t) => r.signal_lines@ == signal_scan(t@, t@.len() as int).lines && property_views(
            r.properties@,
        ) == properties_from(t@, 0, map, enums),
        None => r.signal_lines@.len() == 0 && r.properties@.len() == 0,
    }
}

/// Reads the text of a class. `root` are the declarations of the header.
pub fn scrape_class_body(
    class: &CppClass,
    root: &Vec<Decl>,
    type_map: &Dict<String>,
) -> (r: ClassBodyScrape)
    ensures
        is_scrape(r, *class, texts(type_map@), enum_names_of(*root, None, None, root@.len())),
{
    let empty: Vec<String> = Vec::new();
    assert(views(empty@) + enum_names_of(*root, None, None, root@.len()) =~= enum_names_of(
        *root,
        None,
        None,
        root@.len(),
    ));
    let none: Option<String> = None;
    let enums = collect_enum_names(root, &none, &none, empty);
    let super_name = detect_base(&class.bases);
    match &class.tokens {
        Some(tokens) => {
            let lines = signal_lines(tokens);
            let properties = scan_properties(tokens, type_map, &enums);
            ClassBodyScrape { signal_lines: lines, properties, super_name }
        },
        None => ClassBodyScrape { signal_lines: Vec::new(), properties: Vec::new(), super_name },
    }
}

// ---- laws ---------------------------------------------------------------------------

/// A class without a section of signals has no signals.
pub proof fn law_no_section_no_signals(v: Seq<Token>, n: int)
    requires
        0 <= n <= v.len(),
        forall|i: int| 0 <= i < v.len() ==> !#[trigger] opens_signals(v, i),
    ensures
        signal_scan(v, n).lines.len() == 0,
        !signal_scan(v, n).open,
    decreases n,
{
    if n > 0 {
        law_no_section_no_signals(v, n - 1);
    }
}

/// A type that is bound by its spelling is never taken for a number.
pub proof fn law_bound_property_types_win(
    spelled: Seq<char>,
    map: Map<Seq<char>, Seq<char>>,
    enums: Seq<Seq<char>>,
)
    requires
        map.contains_key(spelled),
    ensures
        property_type(spelled, map, enums) == Some(Ty::Named(map[spelled])),
{
}

} // verus!
