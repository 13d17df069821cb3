//! What holds of what is read from C++ headers: which types, parameters,
//! methods, signals and properties are bound.

use crate::collect::{
    class_found, constant_value, enum_found, equals_at, flag_each, parser_args, source_text, spaced,
};
use crate::cpp::{
    known, mapped, plain, Access, CppClass, CppMember, CppParam, CppType, Token, TokenKind,
    TypeLayer,
};
use crate::methods::{
    access_at, allow_list, bound_methods, distinct, flagged, found_methods, in_signals,
    is_bool_pointer, is_signal_mark, member_name, member_overloads, ordered, overloads, param_name,
    scanned, signature, signatures, trailing,
};
use crate::qpi_types::{ClassSpec, MethodView, ParamView, PropertyView, Ty};
use crate::scrape::{
    closing, enum_name, first_base, first_modifier, is_modifier, opens_signals, properties_from,
    property_in, property_type, signal_scan, spelled_type, Decl, DeclKind, EnumConstant,
    SourceToken,
};
use crate::text::{after_last, contains, starts_with, strip_prefix, trim, trim_end_char, views};
use vstd::prelude::*;

verus! {

// ---- types -------------------------------------------------------------------------

/// The names by which a plain type is looked up, one after the other: as it is
/// written, and with its aliases resolved.
pub open spec fn lookup_names(t: CppType) -> (Seq<char>, Seq<char>) {
    (trim(plain(t.display@)), trim(plain(t.canonical@)))
}

/// A plain type is bound under the first of its names that is known; where
/// none is, an enum is a number, and any other type is not bound.
pub proof fn law_first_known_name_wins(t: CppType, map: Map<Seq<char>, Seq<char>>)
    requires
        t.layer == TypeLayer::Plain,
        plain(t.display@) != "void"@,
        !contains(plain(t.display@), "chrono::"@),
    ensures
        ({
            let (shown, resolved) = lookup_names(t);
            &&& map.contains_key(shown) ==> mapped(t, map) == Some(Ty::Named(map[shown]))
            &&& !map.contains_key(shown) && map.contains_key(resolved) ==> mapped(t, map) == Some(
                Ty::Named(map[resolved]),
            )
            &&& !map.contains_key(shown) && !map.contains_key(resolved) && !starts_with(
                resolved,
                "QFlags<"@,
            ) && !starts_with(t.canonical@, "QFlags<"@) ==> mapped(t, map) == (if t.is_enum {
                Some(Ty::Named("Int"@))
            } else {
                None
            })
        }),
{
}

/// No type is bound for `void`; a time of `std::chrono` cannot be bound.
pub proof fn law_void_is_no_type(t: CppType, map: Map<Seq<char>, Seq<char>>)
    requires
        t.layer == TypeLayer::Plain,
    ensures
        plain(t.display@) == "void"@ ==> mapped(t, map) == Some(Ty::Void),
        plain(t.display@) != "void"@ && contains(plain(t.display@), "chrono::"@) ==> mapped(t, map)
            is None,
{
}

/// Flags that are not known themselves are bound as the enum that they are
/// over, with its namespace or without it, and else as a number.
pub proof fn law_flags_are_bound_as_their_enum(
    t: CppType,
    map: Map<Seq<char>, Seq<char>>,
    e: Seq<char>,
)
    requires
        t.layer == TypeLayer::Plain,
        plain(t.display@) != "void"@,
        !contains(plain(t.display@), "chrono::"@),
        lookup_names(t).1 == "QFlags<"@ + e + ">"@,
        starts_with(t.canonical@, "QFlags<"@),
        e.len() > 0 && e.last() != '>' && trim(e) == e,
        !map.contains_key(lookup_names(t).0),
        !map.contains_key(lookup_names(t).1),
    ensures
        map.contains_key(e) ==> mapped(t, map) == Some(Ty::Named(map[e])),
        !map.contains_key(e) && map.contains_key(after_last(e, "::"@)) ==> mapped(t, map) == Some(
            Ty::Named(map[after_last(e, "::"@)]),
        ),
        !map.contains_key(e) && !map.contains_key(after_last(e, "::"@)) ==> mapped(t, map) == Some(
            Ty::Named("Int"@),
        ),
{
    let canonical = lookup_names(t).1;
    let p = "QFlags<"@;
    let rest = e + ">"@;
    reveal_strlit(">");
    assert(canonical =~= p + rest);
    assert(canonical.subrange(0, p.len() as int) =~= p);
    assert(canonical.subrange(p.len() as int, canonical.len() as int) =~= rest);
    assert(strip_prefix(canonical, p) == Some(rest));
    assert(rest.last() == '>');
    assert(rest.drop_last() =~= e);
    assert(rest.subrange(0, rest.len() - 1) =~= e);
    reveal_with_fuel(trim_end_char, 3);
    assert(trim_end_char(rest, '>') == e);
}

// ---- parameters --------------------------------------------------------------------

/// The parameter is one of the method, and its type can be bound.
pub open spec fn is_bindable(p: CppParam, map: Map<Seq<char>, Seq<char>>) -> bool {
    !is_signal_mark(p) && (p.ty matches Some(t) && mapped(t, map) matches Some(Ty::Named(n)))
}

/// Parameters that can be bound all are, in their order, under their names, or
/// `_` for one without a name, and with their types.
pub proof fn law_bindable_parameters_are_kept(
    v: Seq<CppParam>,
    map: Map<Seq<char>, Seq<char>>,
    n: int,
)
    requires
        0 <= n <= v.len(),
        forall|i: int| 0 <= i < n ==> is_bindable(#[trigger] v[i], map),
    ensures
        scanned(v, map, n).params.len() == n,
        scanned(v, map, n).defaults.len() == n,
        !scanned(v, map, n).bad && !scanned(v, map, n).stopped,
        forall|i: int|
            #![trigger v[i]]
            0 <= i < n ==> {
                &&& scanned(v, map, n).params[i].name == (match v[i].name {
                    Some(x) => x@,
                    None => "_"@,
                })
                &&& Some(scanned(v, map, n).params[i].ty) == mapped(v[i].ty->0, map)
                &&& scanned(v, map, n).defaults[i] == v[i].has_default
            },
    decreases n,
{
    if n > 0 {
        law_bindable_parameters_are_kept(v, map, n - 1);
        assert(is_bindable(v[n - 1], map));
        let before = scanned(v, map, n - 1);
        let now = scanned(v, map, n);
        assert forall|i: int|
            #![trigger v[i]]
            0 <= i < n implies {
            &&& now.params[i].name == (match v[i].name {
                Some(x) => x@,
                None => "_"@,
            })
            &&& Some(now.params[i].ty) == mapped(v[i].ty->0, map)
            &&& now.defaults[i] == v[i].has_default
        } by {
            if i < n - 1 {
                assert(now.params[i] == before.params[i]);
                assert(now.defaults[i] == before.defaults[i]);
            }
        }
    }
}

/// A parameter that cannot be bound ends the list where it has a default, and
/// drops the method where it has none, whatever comes behind it.
pub proof fn law_unbindable_parameters_end_the_list(
    v: Seq<CppParam>,
    map: Map<Seq<char>, Seq<char>>,
    i: int,
    n: int,
)
    requires
        0 <= i < n <= v.len(),
        forall|k: int| 0 <= k < i ==> is_bindable(#[trigger] v[k], map),
        !is_signal_mark(v[i]),
        !is_bindable(v[i], map),
    ensures
        scanned(v, map, n).bad == !v[i].has_default,
        scanned(v, map, n).params.len() == i,
    decreases n,
{
    if n == i + 1 {
        law_bindable_parameters_are_kept(v, map, i);
    } else {
        law_unbindable_parameters_end_the_list(v, map, i, n - 1);
        lemma_ended(v, map, i, n - 1);
    }
}

proof fn lemma_ended(v: Seq<CppParam>, map: Map<Seq<char>, Seq<char>>, i: int, n: int)
    requires
        0 <= i < n <= v.len(),
        forall|k: int| 0 <= k < i ==> is_bindable(#[trigger] v[k], map),
        !is_signal_mark(v[i]),
        !is_bindable(v[i], map),
    ensures
        scanned(v, map, n).bad || scanned(v, map, n).stopped,
    decreases n,
{
    if n == i + 1 {
        law_bindable_parameters_are_kept(v, map, i);
    } else {
        lemma_ended(v, map, i, n - 1);
    }
}

/// A success flag is looked for among the pointers to `bool` with a default.
pub proof fn law_no_flag_without_pointers(
    v: Seq<CppParam>,
    map: Map<Seq<char>, Seq<char>>,
    n: int,
)
    requires
        0 <= n <= v.len(),
        forall|i: int|
            0 <= i < n ==> !(is_bool_pointer(#[trigger] v[i]) && v[i].has_default),
    ensures
        scanned(v, map, n).ok_at is None,
    decreases n,
{
    if n > 0 {
        law_no_flag_without_pointers(v, map, n - 1);
        assert(!(is_bool_pointer(v[n - 1]) && v[n - 1].has_default));
    }
}

/// The first pointer to `bool` with a default is the success flag.
pub proof fn law_first_pointer_is_the_flag(
    v: Seq<CppParam>,
    map: Map<Seq<char>, Seq<char>>,
    i: int,
    n: int,
)
    requires
        0 <= i < n <= v.len(),
        forall|k: int| 0 <= k <= i ==> is_bindable(#[trigger] v[k], map),
        forall|k: int| 0 <= k < i ==> !(is_bool_pointer(#[trigger] v[k]) && v[k].has_default),
        is_bool_pointer(v[i]) && v[i].has_default,
    ensures
        scanned(v, map, n).ok_at == Some(i),
    decreases n,
{
    if n == i + 1 {
        law_bindable_parameters_are_kept(v, map, i);
        law_no_flag_without_pointers(v, map, i);
        assert(is_bindable(v[i], map));
    } else {
        law_first_pointer_is_the_flag(v, map, i, n - 1);
    }
}

/// The parameters that a call may leave out are the longest row of parameters
/// with a default at the end.
pub proof fn law_trailing_defaults(d: Seq<bool>)
    ensures
        trailing(d) <= d.len(),
        forall|i: int| d.len() - trailing(d) <= i < d.len() ==> #[trigger] d[i],
        trailing(d) < d.len() ==> !d[d.len() - trailing(d) - 1],
    decreases d.len(),
{
    if d.len() > 0 && d.last() {
        let rest = d.drop_last();
        law_trailing_defaults(rest);
        assert forall|i: int| d.len() - trailing(d) <= i < d.len() implies #[trigger] d[i] by {
            if i < d.len() - 1 {
                assert(rest[i]);
            }
        }
    }
}

// ---- methods -----------------------------------------------------------------------

proof fn lemma_found_holds(
    c: CppClass,
    spec: ClassSpec,
    map: Map<Seq<char>, Seq<char>>,
    lines: Seq<u32>,
    i: int,
    n: int,
    k: int,
) -> (r: int)
    requires
        0 <= i < n,
        0 <= k < member_overloads(c, spec, map, lines, i).len(),
    ensures
        0 <= r < found_methods(c, spec, map, lines, n).len(),
        found_methods(c, spec, map, lines, n)[r] == member_overloads(c, spec, map, lines, i)[k],
    decreases n,
{
    let before = found_methods(c, spec, map, lines, n - 1);
    if i == n - 1 {
        before.len() + k
    } else {
        lemma_found_holds(c, spec, map, lines, i, n - 1, k)
    }
}

proof fn lemma_distinct_holds(v: Seq<(MethodView, bool)>, signal: bool, n: int, k: int)
    requires
        0 <= k < n <= v.len(),
        v[k].1 == signal,
    ensures
        signatures(distinct(v, signal, n)).contains(signature(v[k].0)),
    decreases n,
{
    let before = distinct(v, signal, n - 1);
    let now = distinct(v, signal, n);
    let s = signature(v[k].0);
    if k < n - 1 {
        lemma_distinct_holds(v, signal, n - 1, k);
    }
    if k < n - 1 || signatures(before).contains(s) {
        let j = choose|j: int| 0 <= j < signatures(before).len() && signatures(before)[j] == s;
        assert(now[j] == before[j]);
        assert(signatures(now)[j] == s);
    } else {
        assert(signatures(now)[now.len() - 1] == s);
    }
}

/// What a C++ programmer sees of a method: it is public, no operator, not one
/// that Qt adds, and static only where that is asked for; and it hands out no
/// reference by which the object could be changed.
pub open spec fn is_open(m: CppMember, spec: ClassSpec) -> bool {
    &&& m.access == Some(Access::Public)
    &&& m.is_method
    &&& m.name matches Some(n) && !starts_with(n@, "operator"@) && !starts_with(n@, "qt_"@)
    &&& m.is_static ==> spec.include_statics
    &&& m.result matches Some(t) && (t.layer == TypeLayer::LValueReference ==> t.is_const || (
    t.pointee matches Some(p) && p.is_const))
}

/// Every such method of a class with neither a list of methods to keep nor one
/// of methods to drop is bound with all of its parameters, where these and what
/// it returns can be bound.
pub proof fn law_open_methods_are_bound(
    c: CppClass,
    spec: ClassSpec,
    map: Map<Seq<char>, Seq<char>>,
    lines: Seq<u32>,
    i: int,
)
    requires
        0 <= i < c.members@.len(),
        spec.include_only is None,
        spec.exclude@.len() == 0,
        is_open(c.members@[i], spec),
        mapped(c.members@[i].result->0, map) is Some,
        forall|k: int|
            0 <= k < c.members@[i].params@.len() ==> is_bindable(
                #[trigger] c.members@[i].params@[k],
                map,
            ) && !is_bool_pointer(c.members@[i].params@[k]),
    ensures
        ({
            let m = c.members@[i];
            let n = m.params@.len();
            let full = MethodView {
                name: m.name->0@,
                params: Seq::new(
                    n,
                    |k: int|
                        ParamView { name: param_name(m.params@[k]), ty: mapped(m.params@[k].ty->0, map)->0 },
                ),
                ret: mapped(m.result->0, map)->0,
                lifted: false,
            };
            signatures(bound_methods(c, spec, map, lines, in_signals(m, lines))).contains(
                signature(full),
            )
        }),
{
    let m = c.members@[i];
    let n = m.params@.len() as int;
    let signal = in_signals(m, lines);
    let s = scanned(m.params@, map, n);
    assert forall|k: int| 0 <= k < n implies is_bindable(#[trigger] m.params@[k], map) by {}
    law_bindable_parameters_are_kept(m.params@, map, n);
    law_no_flag_without_pointers(m.params@, map, n);
    law_trailing_defaults(s.defaults);
    let ret = mapped(m.result->0, map)->0;
    let full = MethodView {
        name: m.name->0@,
        params: Seq::new(
            n as nat,
            |k: int|
                ParamView { name: param_name(m.params@[k]), ty: mapped(m.params@[k].ty->0, map)->0 },
        ),
        ret,
        lifted: false,
    };
    assert(s.params =~= full.params) by {
        assert forall|k: int| 0 <= k < n implies #[trigger] s.params[k] == full.params[k] by {
            let p = m.params@[k];
            assert(is_bindable(p, map));
        }
    }
    assert(s.params.take(n) =~= s.params);
    assert(views(spec.exclude@).len() == 0);
    let all = overloads(member_name(m), ret, s);
    let last = trailing(s.defaults) as int;
    assert(all[last] == full);
    assert(access_at(c, i + 1) == Access::Public);
    assert(member_overloads(c, spec, map, lines, i) == flagged(all, signal));
    let f = found_methods(c, spec, map, lines, c.members@.len() as int);
    let r = lemma_found_holds(c, spec, map, lines, i, c.members@.len() as int, last);
    assert(f[r] == (full, signal));
    assert(ordered(f, allow_list(spec)) == f);
    lemma_distinct_holds(f, signal, f.len() as int, r);
}

/// A member that is private or protected, no method, an operator, static
/// without being asked for, or that hands out a reference by which the object
/// could be changed is never bound.
pub proof fn law_closed_methods_are_not_bound(
    c: CppClass,
    spec: ClassSpec,
    map: Map<Seq<char>, Seq<char>>,
    lines: Seq<u32>,
    i: int,
)
    requires
        0 <= i < c.members@.len(),
        ({
            let m = c.members@[i];
            ||| m.access == Some(Access::Private)
            ||| m.access == Some(Access::Protected)
            ||| !m.is_method
            ||| (m.name matches Some(n) && starts_with(n@, "operator"@))
            ||| m.is_static && !spec.include_statics
            ||| m.result is None
            ||| (m.result matches Some(t) && t.layer == TypeLayer::LValueReference && !t.is_const
                && t.pointee is None)
        }),
    ensures
        member_overloads(c, spec, map, lines, i).len() == 0,
{
}

/// A method on the list of methods to drop is not bound, where there is no list
/// of methods to keep; a signal is.
pub proof fn law_dropped_methods_are_not_bound(
    c: CppClass,
    spec: ClassSpec,
    map: Map<Seq<char>, Seq<char>>,
    lines: Seq<u32>,
    i: int,
    k: int,
)
    requires
        0 <= i < c.members@.len(),
        spec.include_only is None,
        0 <= k < spec.exclude@.len(),
        c.members@[i].name matches Some(n) && n@ == spec.exclude@[k]@,
        !in_signals(c.members@[i], lines),
    ensures
        member_overloads(c, spec, map, lines, i).len() == 0,
{
    assert(views(spec.exclude@)[k] == spec.exclude@[k]@);
}

/// A member without an access of its own has that of the member before it; the
/// first one that of the class: private in a `class`, public in a `struct`.
pub proof fn law_access_lasts(c: CppClass, i: int)
    requires
        0 <= i < c.members@.len(),
    ensures
        c.members@[i].access matches Some(a) ==> access_at(c, i + 1) == a,
        c.members@[i].access is None && i > 0 ==> access_at(c, i + 1) == access_at(c, i),
        c.members@[i].access is None && i == 0 ==> access_at(c, i + 1) == (if c.is_class {
            Access::Private
        } else {
            Access::Public
        }),
{
    reveal_with_fuel(access_at, 3);
}

// ---- signals -----------------------------------------------------------------------

/// The token is `public`, `private` or `protected`.
pub open spec fn ends_signals(t: Token) -> bool {
    t.kind == TokenKind::Keyword && (t.spelling@ == "public"@ || t.spelling@ == "private"@
        || t.spelling@ == "protected"@)
}

/// Token `k` stands in a section of signals: one was opened at or before it,
/// and none of the tokens after that ended it.
pub open spec fn in_section(v: Seq<Token>, k: int) -> bool {
    exists|i: int|
        0 <= i <= k && #[trigger] opens_signals(v, i) && forall|j: int|
            i < j <= k ==> !ends_signals(#[trigger] v[j])
}

proof fn lemma_signal_scan(v: Seq<Token>, n: int)
    requires
        0 <= n <= v.len(),
    ensures
        signal_scan(v, n).open <==> n > 0 && in_section(v, n - 1),
        signal_scan(v, n).last == 0 || signal_scan(v, n).lines.contains(signal_scan(v, n).last),
        forall|k: int|
            #![trigger v[k]]
            0 <= k < n && in_section(v, k) && v[k].line != 0 ==> signal_scan(v, n).lines.contains(
                v[k].line,
            ),
        forall|l: u32| #[trigger]
            signal_scan(v, n).lines.contains(l) ==> exists|k: int|
                0 <= k < n && in_section(v, k) && (#[trigger] v[k]).line == l,
    decreases n,
{
    if n > 0 {
        lemma_signal_scan(v, n - 1);
        let s = signal_scan(v, n - 1);
        let now = signal_scan(v, n);
        let t = v[n - 1];
        if n - 1 > 0 && in_section(v, n - 2) && !ends_signals(t) {
            let i = choose|i: int|
                0 <= i <= n - 2 && #[trigger] opens_signals(v, i) && forall|j: int|
                    i < j <= n - 2 ==> !ends_signals(#[trigger] v[j]);
            assert(opens_signals(v, i));
            assert forall|j: int| i < j <= n - 1 implies !ends_signals(#[trigger] v[j]) by {}
            assert(in_section(v, n - 1));
        }
        if in_section(v, n - 1) && !opens_signals(v, n - 1) {
            let i = choose|i: int|
                0 <= i <= n - 1 && #[trigger] opens_signals(v, i) && forall|j: int|
                    i < j <= n - 1 ==> !ends_signals(#[trigger] v[j]);
            assert(i < n - 1);
            assert(!ends_signals(v[n - 1]));
            assert(in_section(v, n - 2)) by {
                assert(opens_signals(v, i));
            }
        }
        if opens_signals(v, n - 1) {
            assert(in_section(v, n - 1));
        }
        assert(now.open <==> in_section(v, n - 1));
        if now.open && t.line != s.last {
            assert(now.lines == s.lines.push(t.line));
            assert(now.lines[now.lines.len() - 1] == t.line);
            assert forall|l: u32| s.lines.contains(l) implies #[trigger] now.lines.contains(l) by {
                let j = choose|j: int| 0 <= j < s.lines.len() && s.lines[j] == l;
                assert(now.lines[j] == l);
            }
            assert forall|l: u32| #[trigger] now.lines.contains(l) implies exists|k: int|
                0 <= k < n && in_section(v, k) && (#[trigger] v[k]).line == l by {
                if l == t.line {
                    assert(in_section(v, n - 1) && v[n - 1].line == l);
                } else {
                    let j = choose|j: int| 0 <= j < now.lines.len() && now.lines[j] == l;
                    assert(s.lines[j] == l);
                    assert(s.lines.contains(l));
                }
            }
        } else {
            assert(now.lines == s.lines);
            assert forall|l: u32| #[trigger] now.lines.contains(l) implies exists|k: int|
                0 <= k < n && in_section(v, k) && (#[trigger] v[k]).line == l by {
                assert(s.lines.contains(l));
            }
        }
    }
}

/// The lines of signals are the lines of the tokens in sections of signals,
/// and no others.
pub proof fn law_signal_lines_are_those_of_sections(v: Seq<Token>)
    ensures
        forall|k: int|
            #![trigger v[k]]
            0 <= k < v.len() && in_section(v, k) && v[k].line != 0 ==> signal_scan(
                v,
                v.len() as int,
            ).lines.contains(v[k].line),
        forall|l: u32| #[trigger]
            signal_scan(v, v.len() as int).lines.contains(l) ==> exists|k: int|
                0 <= k < v.len() && in_section(v, k) && (#[trigger] v[k]).line == l,
{
    lemma_signal_scan(v, v.len() as int);
}

// ---- properties --------------------------------------------------------------------

/// The words that end the declaration of a property's type and name.
pub open spec fn property_words() -> Seq<Seq<char>> {
    seq![
        "READ"@,
        "WRITE"@,
        "NOTIFY"@,
        "RESET"@,
        "BINDABLE"@,
        "MEMBER"@,
        "DESIGNABLE"@,
        "SCRIPTABLE"@,
        "STORED"@,
        "USER"@,
        "CONSTANT"@,
        "FINAL"@,
        "REQUIRED"@,
        "REVISION"@,
        "PRIVATE"@,
    ]
}

proof fn lemma_words(i: int)
    requires
        0 <= i < property_words().len(),
    ensures
        is_modifier(property_words()[i]),
{
    assert(i == 0 || i == 1 || i == 2 || i == 3 || i == 4 || i == 5 || i == 6 || i == 7 || i == 8
        || i == 9 || i == 10 || i == 11 || i == 12 || i == 13 || i == 14);
}

proof fn lemma_first_modifier(v: Seq<Token>, a: int, m: int, b: int)
    requires
        0 <= a <= m < b <= v.len(),
        is_modifier(v[m].spelling@),
        forall|k: int| a <= k < m ==> !is_modifier((#[trigger] v[k]).spelling@),
    ensures
        first_modifier(v, a, b) == m,
    decreases m - a,
{
    if a < m {
        assert(!is_modifier(v[a].spelling@));
        lemma_first_modifier(v, a + 1, m, b);
    }
}

proof fn lemma_words_only(s: Seq<char>)
    requires
        is_modifier(s),
    ensures
        property_words().contains(s),
{
    let w = property_words();
    assert(w[0] == "READ"@ && w[1] == "WRITE"@ && w[2] == "NOTIFY"@ && w[3] == "RESET"@ && w[4]
        == "BINDABLE"@ && w[5] == "MEMBER"@ && w[6] == "DESIGNABLE"@ && w[7] == "SCRIPTABLE"@ && w[8]
        == "STORED"@ && w[9] == "USER"@ && w[10] == "CONSTANT"@ && w[11] == "FINAL"@ && w[12]
        == "REQUIRED"@ && w[13] == "REVISION"@ && w[14] == "PRIVATE"@);
}

/// In the declaration of a property, the name stands before the first of the
/// words that may follow it, and all before the name is the type.
pub proof fn law_properties_end_with_their_name(
    v: Seq<Token>,
    a: int,
    m: int,
    b: int,
    map: Map<Seq<char>, Seq<char>>,
    enums: Seq<Seq<char>>,
)
    requires
        0 <= a && a + 2 <= m < b <= v.len(),
        property_words().contains(v[m].spelling@),
        forall|k: int|
            a <= k < m ==> !property_words().contains((#[trigger] v[k]).spelling@),
    ensures
        match property_type(spelled_type(v.subrange(a, m - 1)), map, enums) {
            Some(ty) => property_in(v, a, b, map, enums) == Some(
                (PropertyView { name: v[m - 1].spelling@, ty }),
            ),
            None => property_in(v, a, b, map, enums) is None,
        },
{
    let j = choose|j: int|
        0 <= j < property_words().len() && property_words()[j] == v[m].spelling@;
    lemma_words(j);
    assert forall|k: int| a <= k < m implies !is_modifier((#[trigger] v[k]).spelling@) by {
        if is_modifier(v[k].spelling@) {
            lemma_words_only(v[k].spelling@);
        }
    }
    lemma_first_modifier(v, a, m, b);
}

proof fn lemma_flat_brackets(v: Seq<Token>, i: int, end: int)
    requires
        0 <= i <= end < v.len(),
        v[end].spelling@ == ")"@,
        forall|k: int|
            i <= k < end ==> (#[trigger] v[k]).spelling@ != "("@ && v[k].spelling@ != ")"@,
    ensures
        closing(v, i, 1) == end,
    decreases end - i,
{
    reveal_strlit("(");
    reveal_strlit(")");
    assert("("@[0] != ")"@[0]);
    if i < end {
        assert(v[i].spelling@ != "("@);
        lemma_flat_brackets(v, i + 1, end);
    }
}

/// `Q_PROPERTY(..)` gives the property that its brackets hold, where that can
/// be bound, and then come those of the tokens behind; tokens that are not
/// `Q_PROPERTY` give none.
pub proof fn law_properties_follow_each_other(
    v: Seq<Token>,
    i: int,
    end: int,
    map: Map<Seq<char>, Seq<char>>,
    enums: Seq<Seq<char>>,
)
    requires
        0 <= i < v.len(),
    ensures
        v[i].spelling@ != "Q_PROPERTY"@ ==> properties_from(v, i, map, enums) == properties_from(
            v,
            i + 1,
            map,
            enums,
        ),
        v[i].spelling@ == "Q_PROPERTY"@ && i + 1 < end < v.len() && v[i + 1].spelling@ == "("@
            && v[end].spelling@ == ")"@ && (forall|k: int|
            i + 1 < k < end ==> (#[trigger] v[k]).spelling@ != "("@ && v[k].spelling@ != ")"@)
            ==> properties_from(v, i, map, enums) == (match property_in(v, i + 2, end, map, enums) {
            Some(p) => seq![p],
            None => Seq::empty(),
        }) + properties_from(v, end + 1, map, enums),
{
    if v[i].spelling@ == "Q_PROPERTY"@ && i + 1 < end < v.len() && v[i + 1].spelling@ == "("@
        && v[end].spelling@ == ")"@ && (forall|k: int|
        i + 1 < k < end ==> (#[trigger] v[k]).spelling@ != "("@ && v[k].spelling@ != ")"@) {
        lemma_flat_brackets(v, i + 2, end);
    }
}

/// The type of a property is looked up as it is spelled, without its
/// namespace, and as the flag of that name; an enum that is not known is a
/// number, and another type is not bound.
pub proof fn law_property_types_by_name(
    spelled: Seq<char>,
    map: Map<Seq<char>, Seq<char>>,
    enums: Seq<Seq<char>>,
)
    ensures
        ({
            let bare = trim(after_last(spelled, "::"@));
            let got = property_type(spelled, map, enums);
            &&& map.contains_key(spelled) ==> got == Some(Ty::Named(map[spelled]))
            &&& !map.contains_key(spelled) && map.contains_key(bare) ==> got == Some(
                Ty::Named(map[bare]),
            )
            &&& !map.contains_key(spelled) && !map.contains_key(bare) && map.contains_key(
                bare + "Flag"@,
            ) ==> got == Some(Ty::Named(map[bare + "Flag"@]))
            &&& !map.contains_key(spelled) && !map.contains_key(bare) && !map.contains_key(
                bare + "Flag"@,
            ) ==> got == (if enums.contains(spelled) || enums.contains(bare) {
                Some(Ty::Named("Int"@))
            } else {
                None
            })
        }),
{
}

// ---- enums and bases ---------------------------------------------------------------

/// An enum is known by its name alone, behind the name of the class or
/// namespace that it stands in, and behind that and the one around it; and by
/// no other name.
pub proof fn law_enums_are_known_by_each_name(n: Seq<char>, p: Seq<char>, o: Seq<char>)
    ensures
        enum_name(Some(n), None, None) =~= seq![n],
        enum_name(Some(n), Some(p), None) =~= seq![n, p + "::"@ + n],
        enum_name(Some(n), Some(p), Some(o)) =~= seq![n, p + "::"@ + n, o + "::"@ + p + "::"@ + n],
        enum_name(None, Some(p), Some(o)).len() == 0,
{
}

/// The base class is the first one whose type is known, without its namespace.
pub proof fn law_first_known_base(v: Seq<Option<String>>, i: int, k: int)
    requires
        0 <= i <= k < v.len(),
        forall|j: int| i <= j < k ==> (#[trigger] v[j]) is None,
        v[k] is Some,
    ensures
        first_base(v, i) == Some(after_last(trim(plain(v[k]->0@)), "::"@)),
    decreases k - i,
{
    if i < k {
        assert(v[i] is None);
        law_first_known_base(v, i + 1, k);
    }
}

// ---- declarations ------------------------------------------------------------------

/// The enum that is found is an enum, and bears the name.
pub proof fn law_found_enums_bear_the_name(v: Vec<Decl>, name: Seq<char>, i: nat)
    ensures
        enum_found(v, name, i) matches Some(d) ==> d.kind == DeclKind::Enum && (
        d.name matches Some(n) && n@ == name),
    decreases v, v@.len() - i,
{
    if i < v@.len() {
        let d = v@[i as int];
        assert(decreases_to!(v => v[i as int]));
        law_found_enums_bear_the_name(d.children, name, 0);
        law_found_enums_bear_the_name(v, name, i + 1);
    }
}

/// The declaration can hold enums.
pub open spec fn holds_enums(d: Decl) -> bool {
    d.kind == DeclKind::Namespace || d.kind == DeclKind::Class || d.kind == DeclKind::Struct
}

/// An enum that stands among the declarations, or in a namespace, class or
/// struct among them, is found; and where none is found, there is none.
pub proof fn law_enums_are_found(v: Vec<Decl>, name: Seq<char>, i: nat, k: int)
    requires
        i <= k < v@.len(),
        ({
            let d = v@[k];
            ||| d.kind == DeclKind::Enum && (d.name matches Some(n) && n@ == name)
            ||| holds_enums(d) && enum_found(d.children, name, 0) is Some
        }),
    ensures
        enum_found(v, name, i) is Some,
    decreases k - i,
{
    if i < k {
        law_enums_are_found(v, name, i + 1, k);
    }
}

/// The class that is found is a class or struct with a body, and bears the
/// name.
pub proof fn law_found_classes_bear_the_name(v: Vec<Decl>, name: Seq<char>, i: nat)
    ensures
        class_found(v, name, i) matches Some(d) ==> (d.kind == DeclKind::Class || d.kind
            == DeclKind::Struct) && d.is_definition && (d.name matches Some(n) && n@ == name),
    decreases v, v@.len() - i,
{
    if i < v@.len() {
        let d = v@[i as int];
        assert(decreases_to!(v => v[i as int]));
        law_found_classes_bear_the_name(d.children, name, 0);
        law_found_classes_bear_the_name(v, name, i + 1);
    }
}

/// A class or struct that is defined anywhere among the declarations is found.
pub proof fn law_classes_are_found(v: Vec<Decl>, name: Seq<char>, i: nat, k: int)
    requires
        i <= k < v@.len(),
        ({
            let d = v@[k];
            ||| (d.kind == DeclKind::Class || d.kind == DeclKind::Struct) && d.is_definition && (
            d.name matches Some(n) && n@ == name)
            ||| class_found(d.children, name, 0) is Some
        }),
    ensures
        class_found(v, name, i) is Some,
    decreases k - i,
{
    if i < k {
        law_classes_are_found(v, name, i + 1, k);
    }
}

proof fn lemma_equals_at(v: Seq<SourceToken>, i: int, e: int)
    requires
        0 <= i <= e < v.len(),
        v[e].spelling@ == "="@,
        forall|k: int| i <= k < e ==> (#[trigger] v[k]).spelling@ != "="@,
    ensures
        equals_at(v, i) == e,
    decreases e - i,
{
    if i < e {
        assert(v[i].spelling@ != "="@);
        lemma_equals_at(v, i + 1, e);
    }
}

proof fn lemma_no_equals(v: Seq<SourceToken>, i: int)
    requires
        0 <= i <= v.len(),
        forall|k: int| i <= k < v.len() ==> (#[trigger] v[k]).spelling@ != "="@,
    ensures
        equals_at(v, i) == v.len(),
    decreases v.len() - i,
{
    if i < v.len() {
        assert(v[i].spelling@ != "="@);
        lemma_no_equals(v, i + 1);
    }
}

/// The value of a constant is all that stands behind its first `=`; a constant
/// without one has no value.
pub proof fn law_values_stand_behind_the_equals_sign(c: EnumConstant, e: int)
    requires
        c.tokens is Some,
    ensures
        ({
            let v = (c.tokens->0)@;
            &&& (forall|k: int| 0 <= k < v.len() ==> (#[trigger] v[k]).spelling@ != "="@)
                ==> constant_value(c) is None
            &&& 0 <= e < v.len() - 1 && v[e].spelling@ == "="@ && (forall|k: int|
                0 <= k < e ==> (#[trigger] v[k]).spelling@ != "="@) ==> constant_value(c) == Some(
                trim(source_text(v, e + 1, v.len() as int)),
            )
        }),
{
    let v = (c.tokens->0)@;
    if forall|k: int| 0 <= k < v.len() ==> (#[trigger] v[k]).spelling@ != "="@ {
        lemma_no_equals(v, 0);
    }
    if 0 <= e < v.len() - 1 && v[e].spelling@ == "="@ && (forall|k: int|
        0 <= k < e ==> (#[trigger] v[k]).spelling@ != "="@) {
        lemma_equals_at(v, 0, e);
    }
}

/// The source of tokens is that of each token in turn, with the gap that stands
/// before it; a gap with a line break is one space.
pub proof fn law_source_follows_the_tokens(v: Seq<SourceToken>, i: int, k: int, n: int)
    requires
        0 <= i <= k <= n <= v.len(),
    ensures
        source_text(v, i, n) == source_text(v, i, k) + source_text(v, k, n),
        k < n ==> source_text(v, k, k + 1) == (if v[k].gap@.contains('\n') {
            " "@
        } else {
            v[k].gap@
        }) + v[k].spelling@,
    decreases n - k,
{
    reveal_with_fuel(source_text, 2);
    if k < n {
        law_source_follows_the_tokens(v, i, k, n - 1);
        assert(source_text(v, i, k) + (source_text(v, k, n - 1) + spaced(v[n - 1])) =~= (
        source_text(v, i, k) + source_text(v, k, n - 1)) + spaced(v[n - 1]));
        assert(Seq::<char>::empty() + spaced(v[k]) =~= spaced(v[k]));
    } else {
        assert(source_text(v, i, k) + Seq::<char>::empty() =~= source_text(v, i, k));
    }
}

// ---- the parser --------------------------------------------------------------------

proof fn lemma_flag_each(v: Seq<Seq<char>>, flag: Seq<char>, i: int, n: int)
    requires
        0 <= n <= v.len(),
    ensures
        flag_each(v, flag, n).len() == 2 * n,
        0 <= i < n ==> flag_each(v, flag, n)[2 * i] == flag && flag_each(v, flag, n)[2 * i + 1]
            == v[i],
    decreases n,
{
    if n > 0 {
        lemma_flag_each(v, flag, i, n - 1);
        let before = flag_each(v, flag, n - 1);
        let now = flag_each(v, flag, n);
        assert(now == before.push(flag).push(v[n - 1]));
        if 0 <= i < n - 1 {
            assert(now[2 * i] == before[2 * i]);
            assert(now[2 * i + 1] == before[2 * i + 1]);
        } else if i == n - 1 {
            assert(2 * i == before.len());
        }
    }
}

/// The parser reads C++ in the standard that is set, knows every directory of
/// headers, and every directory of frameworks; the one that the header stands
/// in only where none is set.
pub proof fn law_parser_knows_all_directories(
    std_flag: Seq<char>,
    includes: Seq<Seq<char>>,
    frameworks: Seq<Seq<char>>,
    fallback: Option<Seq<char>>,
    i: int,
)
    ensures
        ({
            let args = parser_args(std_flag, includes, frameworks, fallback);
            let k = 3 + 2 * i;
            let f = 3 + 2 * includes.len() + 2 * i;
            &&& args.len() >= 3 && args[0] == "-std="@ + std_flag && args[1] == "-x"@ && args[2]
                == "c++"@
            &&& 0 <= i < includes.len() ==> k + 1 < args.len() && args[k] == "-isystem"@ && args[k
                + 1] == includes[i]
            &&& 0 <= i < frameworks.len() ==> f + 1 < args.len() && args[f] == "-F"@ && args[f + 1]
                == frameworks[i]
            &&& args.len() == 3 + 2 * includes.len() + 2 * (if frameworks.len() > 0 {
                frameworks.len() as int
            } else if fallback is Some {
                1
            } else {
                0
            })
            &&& frameworks.len() == 0 && fallback is Some ==> args[args.len() - 2] == "-F"@
                && args.last() == fallback->0
        }),
{
    let args = parser_args(std_flag, includes, frameworks, fallback);
    let inc = flag_each(includes, "-isystem"@, includes.len() as int);
    let fw = flag_each(frameworks, "-F"@, frameworks.len() as int);
    let head = seq!["-std="@ + std_flag, "-x"@, "c++"@];
    lemma_flag_each(includes, "-isystem"@, i, includes.len() as int);
    lemma_flag_each(frameworks, "-F"@, i, frameworks.len() as int);
    assert(args[0] == head[0] && args[1] == head[1] && args[2] == head[2]);
    if 0 <= i < includes.len() {
        assert(args[3 + 2 * i] == inc[2 * i]);
        assert(args[3 + 2 * i + 1] == inc[2 * i + 1]);
    }
    if 0 <= i < frameworks.len() {
        let f = 3 + 2 * includes.len() + 2 * i;
        assert(args[f] == fw[2 * i]);
        assert(args[f + 1] == fw[2 * i + 1]);
    }
}

} // verus!
