//! The methods and signals of a class that can be bound.

use crate::cpp::{
    map_type, mapped, opt_ty, plain, strip_const, Access, CppClass, CppMember, CppParam, CppType,
    TypeLayer,
};
use crate::dict::Dict;
use crate::qpi_types::{
    copy_method, copy_type, method_view, method_views, param_view, param_views, take_params,
    ty_view, ClassSpec, CuteType, Method, MethodView, Param, ParamView, Ty,
};
use crate::text::{
    contains_string, has_prefix, join, joined, lemma_views_push, same, starts_with, trim, trimmed,
    views,
};
use crate::typesystem::texts;
use vstd::prelude::*;
use vstd::string::*;

verus! {

// ---- parameters ---------------------------------------------------------------------

/// What is known of a method after some of its parameters.
pub struct ParamScan {
    pub params: Seq<ParamView>,
    pub defaults: Seq<bool>,
    /// The position of the first success flag.
    pub ok_at: Option<int>,
    /// A parameter that cannot be bound was left to its default.
    pub stopped: bool,
    /// A parameter that cannot be bound has no default.
    pub bad: bool,
}

/// The mark by which Qt tells signals apart is no parameter.
pub open spec fn is_signal_mark(p: CppParam) -> bool {
    match p.ty {
        Some(t) => trim(plain(t.display@)) == "QPrivateSignal"@,
        None => false,
    }
}

/// A pointer to a bool.
pub open spec fn is_bool_pointer(p: CppParam) -> bool {
    match p.ty {
        Some(t) => t.layer == TypeLayer::Pointer && match t.pointee {
            Some(u) => trim(plain(u.display@)) == "bool"@,
            None => false,
        },
        None => false,
    }
}

/// The type of a parameter, where it can be bound.
pub open spec fn param_type(p: CppParam, map: Map<Seq<char>, Seq<char>>) -> Option<Ty> {
    match p.ty {
        Some(t) => match mapped(t, map) {
            Some(Ty::Named(n)) => Some(Ty::Named(n)),
            _ => None,
        },
        None => None,
    }
}

pub open spec fn param_name(p: CppParam) -> Seq<char> {
    match p.name {
        Some(n) => n@,
        None => "_"@,
    }
}

pub open spec fn scan_param(
    s: ParamScan,
    p: CppParam,
    map: Map<Seq<char>, Seq<char>>,
) -> ParamScan {
    if s.stopped || s.bad || is_signal_mark(p) {
        s
    } else {
        let ok_at = if is_bool_pointer(p) && p.has_default && s.ok_at is None {
            Some(s.params.len() as int)
        } else {
            s.ok_at
        };
        match param_type(p, map) {
            Some(t) => ParamScan {
                params: s.params.push(ParamView { name: param_name(p), ty: t }),
                defaults: s.defaults.push(p.has_default),
                ok_at,
                ..s
            },
            None => ParamScan { ok_at, stopped: p.has_default, bad: !p.has_default, ..s },
        }
    }
}

/// What is known of a method after its first `n` parameters.
pub open spec fn scanned(v: Seq<CppParam>, map: Map<Seq<char>, Seq<char>>, n: int) -> ParamScan
    decreases n,
{
    if n <= 0 {
        ParamScan {
            params: Seq::empty(),
            defaults: Seq::empty(),
            ok_at: None,
            stopped: false,
            bad: false,
        }
    } else {
        scan_param(scanned(v, map, n - 1), v[n - 1], map)
    }
}

/// How many of the last parameters have a default.
pub open spec fn trailing(defaults: Seq<bool>) -> nat
    decreases defaults.len(),
{
    if defaults.len() > 0 && defaults.last() {
        trailing(defaults.drop_last()) + 1
    } else {
        0
    }
}

struct ScannedParams {
    params: Vec<Param>,
    defaults: Vec<bool>,
    ok_at: Option<usize>,
    bad: bool,
}

spec fn scan_matches(r: ScannedParams, s: ParamScan) -> bool {
    &&& param_views(r.params@) == s.params
    &&& r.defaults@ == s.defaults
    &&& match r.ok_at {
        Some(i) => s.ok_at == Some(i as int) && i <= r.params@.len(),
        None => s.ok_at is None,
    }
    &&& r.bad == s.bad
    &&& r.defaults@.len() == r.params@.len()
}

proof fn lemma_scan_ended(v: Seq<CppParam>, map: Map<Seq<char>, Seq<char>>, a: int, b: int)
    requires
        0 <= a <= b,
        scanned(v, map, a).stopped || scanned(v, map, a).bad,
    ensures
        scanned(v, map, b) == scanned(v, map, a),
    decreases b - a,
{
    if a < b {
        lemma_scan_ended(v, map, a, b - 1);
    }
}

fn has_signal_mark(p: &CppParam) -> (r: bool)
    ensures
        r == is_signal_mark(*p),
{
    match &p.ty {
        Some(t) => {
            let d = strip_const(t.display.as_str());
            same(trimmed(d.as_str()).as_str(), "QPrivateSignal")
        },
        None => false,
    }
}

fn points_to_bool(p: &CppParam) -> (r: bool)
    ensures
        r == is_bool_pointer(*p),
{
    match &p.ty {
        Some(t) => match t.layer {
            TypeLayer::Pointer => match &t.pointee {
                Some(u) => {
                    let d = strip_const(u.display.as_str());
                    same(trimmed(d.as_str()).as_str(), "bool")
                },
                None => false,
            },
            _ => false,
        },
        None => false,
    }
}

fn map_param(p: &CppParam, map: &Dict<String>) -> (r: Option<CuteType>)
    ensures
        opt_ty(r) == param_type(*p, texts(map@)),
{
    match &p.ty {
        Some(t) => match map_type(t, map) {
            Some(CuteType::Named(n)) => Some(CuteType::Named(n)),
            _ => None,
        },
        None => None,
    }
}

fn scan_params(v: &Vec<CppParam>, map: &Dict<String>) -> (r: ScannedParams)
    ensures
        scan_matches(r, scanned(v@, texts(map@), v@.len() as int)),
{
    let ghost t = texts(map@);
    let mut out = ScannedParams {
        params: Vec::new(),
        defaults: Vec::new(),
        ok_at: None,
        bad: false,
    };
    assert(param_views(out.params@) =~= Seq::<ParamView>::empty());
    let mut i: usize = 0;
    while i < v.len()
        invariant
            i <= v@.len(),
            t == texts(map@),
            scan_matches(out, scanned(v@, t, i as int)),
            !scanned(v@, t, i as int).stopped,
            !scanned(v@, t, i as int).bad,
        decreases v@.len() - i,
    {
        let p = &v[i];
        let ghost s = scanned(v@, t, i as int);
        assert(scanned(v@, t, i + 1) == scan_param(s, *p, t));
        assert(param_views(out.params@).len() == out.params@.len());
        if !has_signal_mark(p) {
            if points_to_bool(p) && p.has_default && out.ok_at.is_none() {
                out.ok_at = Some(out.params.len());
            }
            match map_param(p, map) {
                Some(ty) => {
                    let name = match &p.name {
                        Some(n) => n.clone(),
                        None => "_".to_owned(),
                    };
                    let ghost before = out.params@;
                    let new = Param { name, ty };
                    let ghost nv = param_view(new);
                    out.params.push(new);
                    out.defaults.push(p.has_default);
                    assert(param_views(out.params@) =~= param_views(before).push(nv));
                },
                None => {
                    out.bad = !p.has_default;
                    proof {
                        lemma_scan_ended(v@, t, i + 1, v@.len() as int);
                    }
                    return out;
                },
            }
        }
        i += 1;
    }
    out
}

fn count_trailing(d: &Vec<bool>) -> (r: usize)
    ensures
        r == trailing(d@),
        r <= d@.len(),
{
    let len: usize = d.len();
    let mut n: usize = 0;
    let mut i: usize = len;
    assert(d@.take(i as int) =~= d@);
    while i > 0 && d[i - 1]
        invariant
            i <= len,
            len == d@.len(),
            n == len - i,
            trailing(d@) == n + trailing(d@.take(i as int)),
        decreases i,
    {
        assert(d@.take(i as int).drop_last() =~= d@.take(i - 1));
        i -= 1;
        n += 1;
    }
    assert(trailing(d@.take(i as int)) == 0) by {
        if i > 0 {
            assert(d@.take(i as int).last() == d@[i - 1]);
        }
    }
    n
}

// ---- overloads ----------------------------------------------------------------------

/// The overloads of a method, shortest first: one for every number of
/// parameters that a call may have. Where a success flag can be lifted, the
/// overloads are those with the flag, and none of them has it as a parameter.
pub open spec fn overloads(name: Seq<char>, ret: Ty, s: ParamScan) -> Seq<MethodView> {
    let max = s.params.len() as int;
    let min = max - trailing(s.defaults);
    match s.ok_at {
        Some(at) if ret != Ty::Void => {
            let low = if at + 1 > min {
                at + 1
            } else {
                min
            };
            Seq::new(
                (if low <= max {
                    max - low + 1
                } else {
                    0
                }) as nat,
                |k: int|
                    MethodView {
                        name,
                        params: s.params.take(low + k).remove(at),
                        ret,
                        lifted: true,
                    },
            )
        },
        _ => Seq::new(
            (max - min + 1) as nat,
            |k: int|
                MethodView { name, params: s.params.take(min + k), ret, lifted: false },
        ),
    }
}

/// A method that was found, and whether it is a signal.
#[derive(Debug)]
pub struct Found {
    pub method: Method,
    pub is_signal: bool,
}

pub open spec fn found_view(f: Found) -> (MethodView, bool) {
    (method_view(f.method), f.is_signal)
}

pub open spec fn found_views(v: Seq<Found>) -> Seq<(MethodView, bool)> {
    Seq::new(v.len(), |i: int| found_view(v[i]))
}

/// The methods, all of them signals or none.
pub open spec fn flagged(v: Seq<MethodView>, is_signal: bool) -> Seq<(MethodView, bool)> {
    Seq::new(v.len(), |i: int| (v[i], is_signal))
}

fn push_one(
    out: Vec<Found>,
    name: &String,
    params: Vec<Param>,
    ret: &CuteType,
    lifted: bool,
    is_signal: bool,
) -> (r: Vec<Found>)
    ensures
        found_views(r@) == found_views(out@).push(
            (
                (MethodView {
                    name: name@,
                    params: param_views(params@),
                    ret: ty_view(*ret),
                    lifted,
                }),
                is_signal,
            ),
        ),
{
    let ghost start = out@;
    let mut out = out;
    let m = Method {
        name: name.clone(),
        params,
        return_ty: copy_type(ret),
        lifted_bool_ok: lifted,
    };
    let f = Found { method: m, is_signal };
    let ghost fv = found_view(f);
    out.push(f);
    assert(found_views(out@) =~= found_views(start).push(fv));
    out
}

fn push_overloads(
    out: Vec<Found>,
    name: &String,
    ret: &CuteType,
    scan: &ScannedParams,
    is_signal: bool,
    Ghost(s): Ghost<ParamScan>,
) -> (r: Vec<Found>)
    requires
        scan_matches(*scan, s),
    ensures
        found_views(r@) == found_views(out@) + flagged(
            overloads(name@, ty_view(*ret), s),
            is_signal,
        ),
{
    let ghost start = found_views(out@);
    let ghost want = overloads(name@, ty_view(*ret), s);
    let mut out = out;
    assert(param_views(scan.params@).len() == scan.params@.len());
    let max: usize = scan.params.len();
    let min: usize = max - count_trailing(&scan.defaults);
    let void = match ret {
        CuteType::Void => true,
        CuteType::Named(_) => false,
    };
    match scan.ok_at {
        Some(at) if !void => {
            if at >= max {
                assert(want =~= Seq::<MethodView>::empty());
                assert(found_views(out@) =~= start + flagged(want, is_signal));
                return out;
            }
            let low: usize = if at + 1 > min {
                at + 1
            } else {
                min
            };
            let mut k: usize = 0;
            assert(found_views(out@) =~= start + flagged(want, is_signal).take(0));
            while k < max - low + 1
                invariant
                    scan_matches(*scan, s),
                    max == scan.params@.len(),
                    max == s.params.len(),
                    at < max,
                    at + 1 <= low <= max,
                    k <= max - low + 1,
                    want.len() == max - low + 1,
                    s.ok_at == Some(at as int),
                    forall|j: int|
                        0 <= j < want.len() ==> #[trigger] want[j] == (MethodView {
                            name: name@,
                            params: s.params.take(low + j).remove(at as int),
                            ret: ty_view(*ret),
                            lifted: true,
                        }),
                    found_views(out@) == start + flagged(want, is_signal).take(k as int),
                decreases max - low + 1 - k,
            {
                let mut params = take_params(&scan.params, low + k);
                let ghost taken = params@;
                let _ = params.remove(at);
                assert(params@ =~= taken.remove(at as int));
                assert(param_views(params@) =~= s.params.take(low + k).remove(at as int));
                out = push_one(out, name, params, ret, true, is_signal);
                k += 1;
                assert(flagged(want, is_signal).take(k as int) =~= flagged(want, is_signal).take(
                    k - 1,
                ).push((want[k - 1], is_signal)));
                assert(found_views(out@) =~= start + flagged(want, is_signal).take(k as int));
            }
            assert(flagged(want, is_signal).take(k as int) =~= flagged(want, is_signal));
            out
        },
        _ => {
            let mut k: usize = 0;
            assert(found_views(out@) =~= start + flagged(want, is_signal).take(0));
            while k < max - min
                invariant
                    scan_matches(*scan, s),
                    max == scan.params@.len(),
                    max == s.params.len(),
                    min <= max,
                    k <= max - min,
                    want.len() == max - min + 1,
                    forall|j: int|
                        0 <= j < want.len() ==> #[trigger] want[j] == (MethodView {
                            name: name@,
                            params: s.params.take(min + j),
                            ret: ty_view(*ret),
                            lifted: false,
                        }),
                    found_views(out@) == start + flagged(want, is_signal).take(k as int),
                decreases max - min - k,
            {
                let params = take_params(&scan.params, min + k);
                assert(param_views(params@) =~= s.params.take(min + k));
                out = push_one(out, name, params, ret, false, is_signal);
                k += 1;
                assert(flagged(want, is_signal).take(k as int) =~= flagged(want, is_signal).take(
                    k - 1,
                ).push((want[k - 1], is_signal)));
                assert(found_views(out@) =~= start + flagged(want, is_signal).take(k as int));
            }
            let params = take_params(&scan.params, max);
            assert(param_views(params@) =~= s.params.take(min + k));
            out = push_one(out, name, params, ret, false, is_signal);
            assert(flagged(want, is_signal) =~= flagged(want, is_signal).take(k as int).push(
                (want[k as int], is_signal),
            ));
            assert(found_views(out@) =~= start + flagged(want, is_signal));
            out
        },
    }
}

// ---- members ------------------------------------------------------------------------

/// The access after the first `n` members.
pub open spec fn access_at(c: CppClass, n: int) -> Access
    decreases n,
{
    if n <= 0 {
        if c.is_class {
            Access::Private
        } else {
            Access::Public
        }
    } else {
        match c.members@[n - 1].access {
            Some(a) => a,
            None => access_at(c, n - 1),
        }
    }
}

pub open spec fn member_name(m: CppMember) -> Seq<char> {
    match m.name {
        Some(n) => n@,
        None => Seq::empty(),
    }
}

/// The member stands in a section of signals.
pub open spec fn in_signals(m: CppMember, lines: Seq<u32>) -> bool {
    match m.line {
        Some(l) => lines.contains(l),
        None => false,
    }
}

/// The methods to keep, where there is a list.
pub open spec fn allow_list(spec: ClassSpec) -> Option<Seq<Seq<char>>> {
    match spec.include_only {
        Some(v) => Some(views(v@)),
        None => None,
    }
}

/// The lists of a class let a method through. Signals always pass.
pub open spec fn is_allowed(spec: ClassSpec, name: Seq<char>, is_signal: bool) -> bool {
    is_signal || match allow_list(spec) {
        Some(list) => list.contains(name),
        None => !views(spec.exclude@).contains(name),
    }
}

/// A member that may be bound: a public method that is no operator, none of
/// the methods that Qt adds, and static only where that is asked for.
pub open spec fn is_candidate(m: CppMember, access: Access, spec: ClassSpec) -> bool {
    &&& access == Access::Public
    &&& m.is_method
    &&& !starts_with(member_name(m), "operator"@)
    &&& !starts_with(member_name(m), "qt_"@)
    &&& (!m.is_static || spec.include_statics)
}

/// What a reference leads to cannot be changed through it.
pub open spec fn is_read_only(t: CppType) -> bool {
    t.is_const || match t.pointee {
        Some(p) => p.is_const,
        None => false,
    }
}

/// The return type, where it can be bound. A reference by which the object
/// could be changed cannot.
pub open spec fn return_type(m: CppMember, map: Map<Seq<char>, Seq<char>>) -> Option<Ty> {
    match m.result {
        Some(t) => if t.layer == TypeLayer::LValueReference && !is_read_only(t) {
            None
        } else {
            mapped(t, map)
        },
        None => None,
    }
}

/// What member `i` of a class gives.
pub open spec fn member_overloads(
    c: CppClass,
    spec: ClassSpec,
    map: Map<Seq<char>, Seq<char>>,
    lines: Seq<u32>,
    i: int,
) -> Seq<(MethodView, bool)> {
    let m = c.members@[i];
    let signal = in_signals(m, lines);
    let s = scanned(m.params@, map, m.params@.len() as int);
    match return_type(m, map) {
        Some(ret) => if is_candidate(m, access_at(c, i + 1), spec) && is_allowed(
            spec,
            member_name(m),
            signal,
        ) && !s.bad {
            flagged(overloads(member_name(m), ret, s), signal)
        } else {
            Seq::empty()
        },
        None => Seq::empty(),
    }
}

/// What the first `n` members of a class give.
pub open spec fn found_methods(
    c: CppClass,
    spec: ClassSpec,
    map: Map<Seq<char>, Seq<char>>,
    lines: Seq<u32>,
    n: int,
) -> Seq<(MethodView, bool)>
    decreases n,
{
    if n <= 0 {
        Seq::empty()
    } else {
        found_methods(c, spec, map, lines, n - 1) + member_overloads(c, spec, map, lines, n - 1)
    }
}

fn holds_line(lines: &Vec<u32>, l: u32) -> (r: bool)
    ensures
        r == lines@.contains(l),
{
    let mut i: usize = 0;
    while i < lines.len()
        invariant
            i <= lines@.len(),
            forall|j: int| 0 <= j < i ==> lines@[j] != l,
        decreases lines@.len() - i,
    {
        if lines[i] == l {
            assert(lines@[i as int] == l);
            return true;
        }
        i += 1;
    }
    false
}

fn list_allows(spec: &ClassSpec, name: &str, is_signal: bool) -> (r: bool)
    ensures
        r == is_allowed(*spec, name@, is_signal),
{
    if is_signal {
        return true;
    }
    match &spec.include_only {
        Some(list) => contains_string(list, name),
        None => !contains_string(&spec.exclude, name),
    }
}

fn map_return(m: &CppMember, map: &Dict<String>) -> (r: Option<CuteType>)
    ensures
        opt_ty(r) == return_type(*m, texts(map@)),
{
    match &m.result {
        Some(t) => match t.layer {
            TypeLayer::LValueReference => {
                let read_only = t.is_const || match &t.pointee {
                    Some(p) => p.is_const,
                    None => false,
                };
                if read_only {
                    map_type(t, map)
                } else {
                    None
                }
            },
            _ => map_type(t, map),
        },
        None => None,
    }
}

fn push_member(
    out: Vec<Found>,
    c: &CppClass,
    i: usize,
    access: Access,
    spec: &ClassSpec,
    map: &Dict<String>,
    lines: &Vec<u32>,
) -> (r: Vec<Found>)
    requires
        i < c.members@.len(),
        access == access_at(*c, i + 1),
    ensures
        found_views(r@) == found_views(out@) + member_overloads(
            *c,
            *spec,
            texts(map@),
            lines@,
            i as int,
        ),
{
    let m = &c.members[i];
    assert(found_views(out@) =~= found_views(out@) + Seq::<(MethodView, bool)>::empty());
    match access {
        Access::Public => {},
        _ => {
            return out;
        },
    }
    if !m.is_method {
        return out;
    }
    let name = match &m.name {
        Some(n) => n.clone(),
        None => String::new(),
    };
    assert(name@ =~= member_name(*m));
    if has_prefix(name.as_str(), "operator") || has_prefix(name.as_str(), "qt_") {
        return out;
    }
    if m.is_static && !spec.include_statics {
        return out;
    }
    let is_signal = match m.line {
        Some(l) => holds_line(lines, l),
        None => false,
    };
    if !list_allows(spec, name.as_str(), is_signal) {
        return out;
    }
    match map_return(m, map) {
        Some(ret) => {
            let scan = scan_params(&m.params, map);
            if scan.bad {
                return out;
            }
            push_overloads(
                out,
                &name,
                &ret,
                &scan,
                is_signal,
                Ghost(scanned(m.params@, texts(map@), m.params@.len() as int)),
            )
        },
        None => out,
    }
}

fn find_methods(
    c: &CppClass,
    spec: &ClassSpec,
    map: &Dict<String>,
    lines: &Vec<u32>,
) -> (r: Vec<Found>)
    ensures
        found_views(r@) == found_methods(
            *c,
            *spec,
            texts(map@),
            lines@,
            c.members@.len() as int,
        ),
{
    let mut access = if c.is_class {
        Access::Private
    } else {
        Access::Public
    };
    let mut out: Vec<Found> = Vec::new();
    assert(found_views(out@) =~= Seq::<(MethodView, bool)>::empty());
    let mut i: usize = 0;
    while i < c.members.len()
        invariant
            i <= c.members@.len(),
            access == access_at(*c, i as int),
            found_views(out@) == found_methods(*c, *spec, texts(map@), lines@, i as int),
        decreases c.members@.len() - i,
    {
        match c.members[i].access {
            Some(a) => {
                access = a;
            },
            None => {},
        }
        out = push_member(out, c, i, access, spec, map, lines);
        i += 1;
    }
    out
}

// ---- order --------------------------------------------------------------------------

/// Those of the first `n` methods that have a name and are no signals.
pub open spec fn named(v: Seq<(MethodView, bool)>, name: Seq<char>, n: int) -> Seq<
    (MethodView, bool),
>
    decreases n,
{
    if n <= 0 {
        Seq::empty()
    } else if !v[n - 1].1 && v[n - 1].0.name == name {
        named(v, name, n - 1).push(v[n - 1])
    } else {
        named(v, name, n - 1)
    }
}

/// The methods with the first `n` names, in the order of the names.
pub open spec fn in_list_order(v: Seq<(MethodView, bool)>, names: Seq<Seq<char>>, n: int) -> Seq<
    (MethodView, bool),
>
    decreases n,
{
    if n <= 0 {
        Seq::empty()
    } else {
        in_list_order(v, names, n - 1) + named(v, names[n - 1], v.len() as int)
    }
}

/// The signals among the first `n` methods.
pub open spec fn signals_of(v: Seq<(MethodView, bool)>, n: int) -> Seq<(MethodView, bool)>
    decreases n,
{
    if n <= 0 {
        Seq::empty()
    } else if v[n - 1].1 {
        signals_of(v, n - 1).push(v[n - 1])
    } else {
        signals_of(v, n - 1)
    }
}

/// The methods in the order in which they are bound: that of the list of
/// methods to keep, then the signals; where there is no list, that of the
/// class.
pub open spec fn ordered(v: Seq<(MethodView, bool)>, allow: Option<Seq<Seq<char>>>) -> Seq<
    (MethodView, bool),
> {
    match allow {
        Some(names) => in_list_order(v, names, names.len() as int) + signals_of(
            v,
            v.len() as int,
        ),
        None => v,
    }
}

fn push_found(out: Vec<Found>, f: &Found) -> (r: Vec<Found>)
    ensures
        found_views(r@) == found_views(out@).push(found_view(*f)),
{
    let ghost start = out@;
    let mut out = out;
    let new = Found { method: copy_method(&f.method), is_signal: f.is_signal };
    let ghost nv = found_view(new);
    out.push(new);
    assert(found_views(out@) =~= found_views(start).push(nv));
    out
}

fn push_named(out: Vec<Found>, v: &Vec<Found>, name: &str) -> (r: Vec<Found>)
    ensures
        found_views(r@) == found_views(out@) + named(found_views(v@), name@, v@.len() as int),
{
    let ghost start = found_views(out@);
    let ghost vs = found_views(v@);
    let mut out = out;
    assert(start =~= start + Seq::<(MethodView, bool)>::empty());
    let mut i: usize = 0;
    while i < v.len()
        invariant
            i <= v@.len(),
            vs == found_views(v@),
            found_views(out@) == start + named(vs, name@, i as int),
        decreases v@.len() - i,
    {
        let ghost done = named(vs, name@, i as int);
        assert(vs[i as int] == found_view(v@[i as int]));
        if !v[i].is_signal && same(v[i].method.name.as_str(), name) {
            out = push_found(out, &v[i]);
            assert(start + done.push(vs[i as int]) =~= (start + done).push(vs[i as int]));
        }
        i += 1;
    }
    out
}

fn push_signals(out: Vec<Found>, v: &Vec<Found>) -> (r: Vec<Found>)
    ensures
        found_views(r@) == found_views(out@) + signals_of(found_views(v@), v@.len() as int),
{
    let ghost start = found_views(out@);
    let ghost vs = found_views(v@);
    let mut out = out;
    assert(start =~= start + Seq::<(MethodView, bool)>::empty());
    let mut i: usize = 0;
    while i < v.len()
        invariant
            i <= v@.len(),
            vs == found_views(v@),
            found_views(out@) == start + signals_of(vs, i as int),
        decreases v@.len() - i,
    {
        let ghost done = signals_of(vs, i as int);
        assert(vs[i as int] == found_view(v@[i as int]));
        if v[i].is_signal {
            out = push_found(out, &v[i]);
            assert(start + done.push(vs[i as int]) =~= (start + done).push(vs[i as int]));
        }
        i += 1;
    }
    out
}

fn order_methods(v: Vec<Found>, spec: &ClassSpec) -> (r: Vec<Found>)
    ensures
        found_views(r@) == ordered(found_views(v@), allow_list(*spec)),
{
    match &spec.include_only {
        Some(list) => {
            let ghost vs = found_views(v@);
            let mut out: Vec<Found> = Vec::new();
            assert(found_views(out@) =~= Seq::<(MethodView, bool)>::empty());
            assert(vs.len() == v@.len());
            let mut i: usize = 0;
            while i < list.len()
                invariant
                    i <= list@.len(),
                    vs == found_views(v@),
                    vs.len() == v@.len(),
                    found_views(out@) == in_list_order(vs, views(list@), i as int),
                decreases list@.len() - i,
            {
                out = push_named(out, &v, list[i].as_str());
                i += 1;
            }
            assert(views(list@).len() == list@.len());
            push_signals(out, &v)
        },
        None => v,
    }
}

// ---- signatures -----------------------------------------------------------------------

pub open spec fn ty_text(t: Ty) -> Seq<char> {
    match t {
        Ty::Named(s) => s,
        Ty::Void => "Void"@,
    }
}

pub open spec fn ty_texts(params: Seq<ParamView>) -> Seq<Seq<char>> {
    Seq::new(params.len(), |i: int| ty_text(params[i].ty))
}

/// What tells two methods apart: the name, the types of the parameters, and
/// whether the method can fail.
pub open spec fn signature(m: MethodView) -> Seq<char> {
    m.name + "("@ + join(ty_texts(m.params), ","@) + ")"@ + if m.lifted {
        "!"@
    } else {
        Seq::empty()
    }
}

pub open spec fn signatures(v: Seq<MethodView>) -> Seq<Seq<char>> {
    Seq::new(v.len(), |i: int| signature(v[i]))
}

/// Those of the first `n` methods that are signals, or that are not, without
/// those that look like an earlier one.
pub open spec fn distinct(v: Seq<(MethodView, bool)>, is_signal: bool, n: int) -> Seq<MethodView>
    decreases n,
{
    if n <= 0 {
        Seq::empty()
    } else {
        let before = distinct(v, is_signal, n - 1);
        if v[n - 1].1 == is_signal && !signatures(before).contains(signature(v[n - 1].0)) {
            before.push(v[n - 1].0)
        } else {
            before
        }
    }
}

/// What tells two methods apart.
pub fn method_signature(m: &Method) -> (r: String)
    ensures
        r@ == signature(method_view(*m)),
{
    let ghost want = ty_texts(param_views(m.params@));
    let mut types: Vec<String> = Vec::new();
    let mut i: usize = 0;
    while i < m.params.len()
        invariant
            i <= m.params@.len(),
            want == ty_texts(param_views(m.params@)),
            views(types@) == want.take(i as int),
        decreases m.params@.len() - i,
    {
        let t = match &m.params[i].ty {
            CuteType::Named(s) => s.clone(),
            CuteType::Void => "Void".to_owned(),
        };
        proof {
            lemma_views_push(types@, t);
            assert(want[i as int] == t@);
        }
        types.push(t);
        i += 1;
        assert(views(types@) =~= want.take(i as int));
    }
    assert(views(types@) =~= want);
    let s = m.name.clone().concat("(").concat(joined(&types, ",").as_str()).concat(")");
    if m.lifted_bool_ok {
        s.concat("!")
    } else {
        assert(s@ + Seq::<char>::empty() =~= s@);
        s
    }
}

fn keep_distinct(v: &Vec<Found>, is_signal: bool) -> (r: Vec<Method>)
    ensures
        method_views(r@) == distinct(found_views(v@), is_signal, v@.len() as int),
{
    let ghost vs = found_views(v@);
    let mut out: Vec<Method> = Vec::new();
    let mut seen: Vec<String> = Vec::new();
    assert(method_views(out@) =~= Seq::<MethodView>::empty());
    assert(views(seen@) =~= signatures(method_views(out@)));
    let mut i: usize = 0;
    while i < v.len()
        invariant
            i <= v@.len(),
            vs == found_views(v@),
            method_views(out@) == distinct(vs, is_signal, i as int),
            views(seen@) == signatures(method_views(out@)),
        decreases v@.len() - i,
    {
        assert(vs[i as int] == found_view(v@[i as int]));
        if v[i].is_signal == is_signal {
            let sig = method_signature(&v[i].method);
            if !contains_string(&seen, sig.as_str()) {
                let m = copy_method(&v[i].method);
                let ghost mv = method_view(m);
                let ghost before = out@;
                let ghost seen_before = seen@;
                proof {
                    lemma_views_push(seen@, sig);
                }
                out.push(m);
                seen.push(sig);
                assert(method_views(out@) =~= method_views(before).push(mv));
                assert(signatures(method_views(out@)) =~= signatures(method_views(before)).push(
                    signature(mv),
                ));
            }
        }
        i += 1;
    }
    out
}

/// The methods of a class that are bound, and its signals.
pub open spec fn bound_methods(
    c: CppClass,
    spec: ClassSpec,
    map: Map<Seq<char>, Seq<char>>,
    lines: Seq<u32>,
    is_signal: bool,
) -> Seq<MethodView> {
    let v = ordered(
        found_methods(c, spec, map, lines, c.members@.len() as int),
        allow_list(spec),
    );
    distinct(v, is_signal, v.len() as int)
}

/// The methods of a class that are bound, and its signals: the methods on
/// `signal_lines`.
pub fn collect_public_methods(
    class: &CppClass,
    spec: &ClassSpec,
    type_map: &Dict<String>,
    signal_lines: &Vec<u32>,
) -> (r: (Vec<Method>, Vec<Method>))
    ensures
        method_views(r.0@) == bound_methods(
            *class,
            *spec,
            texts(type_map@),
            signal_lines@,
            false,
        ),
        method_views(r.1@) == bound_methods(
            *class,
            *spec,
            texts(type_map@),
            signal_lines@,
            true,
        ),
{
    let found = find_methods(class, spec, type_map, signal_lines);
    let v = order_methods(found, spec);
    assert(found_views(v@).len() == v@.len());
    let methods = keep_distinct(&v, false);
    let signals = keep_distinct(&v, true);
    (methods, signals)
}

// ---- laws ---------------------------------------------------------------------------

proof fn lemma_distinct(v: Seq<(MethodView, bool)>, is_signal: bool, n: int)
    requires
        0 <= n <= v.len(),
    ensures
        signatures(distinct(v, is_signal, n)).no_duplicates(),
        forall|i: int|
            0 <= i < n && (#[trigger] v[i]).1 == is_signal ==> signatures(
                distinct(v, is_signal, n),
            ).contains(signature(v[i].0)),
        forall|m: MethodView| #[trigger]
            distinct(v, is_signal, n).contains(m) ==> v.take(n).contains((m, is_signal)),
    decreases n,
{
    if n > 0 {
        lemma_distinct(v, is_signal, n - 1);
        let before = distinct(v, is_signal, n - 1);
        let now = distinct(v, is_signal, n);
        let m = v[n - 1].0;
        assert(v.take(n) =~= v.take(n - 1).push(v[n - 1]));
        assert forall|x: (MethodView, bool)| v.take(n - 1).contains(x) implies #[trigger] v.take(
            n,
        ).contains(x) by {
            let w = v.take(n - 1);
            let i = choose|i: int| 0 <= i < w.len() && #[trigger] w[i] == x;
            assert(v.take(n)[i] == x);
        }
        if v[n - 1].1 == is_signal && !signatures(before).contains(signature(m)) {
            assert(now == before.push(m));
            assert(signatures(now) =~= signatures(before).push(signature(m)));
            assert forall|s: Seq<char>| signatures(before).contains(s) implies #[trigger] signatures(
                now,
            ).contains(s) by {
                let i = choose|i: int| 0 <= i < before.len() && #[trigger] signatures(before)[i] == s;
                assert(signatures(now)[i] == s);
            }
            assert(signatures(now)[before.len() as int] == signature(m));
            assert(signatures(now).contains(signature(m)));
            assert forall|x: MethodView| #[trigger] now.contains(x) implies v.take(n).contains(
                (x, is_signal),
            ) by {
                let i = choose|i: int| 0 <= i < now.len() && now[i] == x;
                if i < before.len() {
                    assert(before[i] == x);
                    assert(before.contains(x));
                } else {
                    assert(v.take(n)[n - 1] == (x, is_signal));
                }
            }
        }
    } else {
        assert(signatures(distinct(v, is_signal, n)) =~= Seq::<Seq<char>>::empty());
    }
}

/// No two methods of a class that are bound look the same, and no two signals.
pub proof fn law_bound_methods_differ(
    c: CppClass,
    spec: ClassSpec,
    map: Map<Seq<char>, Seq<char>>,
    lines: Seq<u32>,
    is_signal: bool,
)
    ensures
        signatures(bound_methods(c, spec, map, lines, is_signal)).no_duplicates(),
{
    let v = ordered(
        found_methods(c, spec, map, lines, c.members@.len() as int),
        allow_list(spec),
    );
    lemma_distinct(v, is_signal, v.len() as int);
}

proof fn lemma_signals_of(v: Seq<(MethodView, bool)>, n: int, i: int)
    requires
        0 <= i < n <= v.len(),
        v[i].1,
    ensures
        signals_of(v, n).contains(v[i]),
    decreases n,
{
    if i == n - 1 {
        assert(signals_of(v, n).last() == v[i]);
    } else {
        lemma_signals_of(v, n - 1, i);
        let before = signals_of(v, n - 1);
        let k = choose|k: int| 0 <= k < before.len() && before[k] == v[i];
        assert(signals_of(v, n)[k] == v[i]);
    }
}

/// The list of methods to keep drops no signal: every signal that was found is
/// bound, or looks like one that is.
pub proof fn law_lists_spare_signals(
    c: CppClass,
    spec: ClassSpec,
    map: Map<Seq<char>, Seq<char>>,
    lines: Seq<u32>,
    i: int,
)
    requires
        0 <= i < found_methods(c, spec, map, lines, c.members@.len() as int).len(),
        found_methods(c, spec, map, lines, c.members@.len() as int)[i].1,
    ensures
        signatures(bound_methods(c, spec, map, lines, true)).contains(
            signature(found_methods(c, spec, map, lines, c.members@.len() as int)[i].0),
        ),
{
    let f = found_methods(c, spec, map, lines, c.members@.len() as int);
    let v = ordered(f, allow_list(spec));
    lemma_distinct(v, true, v.len() as int);
    match allow_list(spec) {
        Some(names) => {
            lemma_signals_of(f, f.len() as int, i);
            let sigs = signals_of(f, f.len() as int);
            let head = in_list_order(f, names, names.len() as int);
            let k = choose|k: int| 0 <= k < sigs.len() && sigs[k] == f[i];
            assert(v[head.len() + k] == f[i]);
        },
        None => {
            assert(v[i] == f[i]);
        },
    }
}

proof fn lemma_named(v: Seq<(MethodView, bool)>, name: Seq<char>, n: int)
    requires
        0 <= n <= v.len(),
    ensures
        forall|i: int|
            0 <= i < named(v, name, n).len() ==> (#[trigger] named(v, name, n)[i]).0.name == name
                && !named(v, name, n)[i].1,
    decreases n,
{
    if n > 0 {
        lemma_named(v, name, n - 1);
    }
}

proof fn lemma_in_list_order(v: Seq<(MethodView, bool)>, names: Seq<Seq<char>>, n: int)
    requires
        0 <= n <= names.len(),
    ensures
        forall|i: int|
            0 <= i < in_list_order(v, names, n).len() ==> names.contains(
                (#[trigger] in_list_order(v, names, n)[i]).0.name,
            ),
    decreases n,
{
    if n > 0 {
        lemma_in_list_order(v, names, n - 1);
        lemma_named(v, names[n - 1], v.len() as int);
        let a = in_list_order(v, names, n - 1);
        let b = named(v, names[n - 1], v.len() as int);
        assert forall|i: int| 0 <= i < in_list_order(v, names, n).len() implies names.contains(
            (#[trigger] in_list_order(v, names, n)[i]).0.name,
        ) by {
            if i < a.len() {
                assert(in_list_order(v, names, n)[i] == a[i]);
            } else {
                assert(in_list_order(v, names, n)[i] == b[i - a.len()]);
                assert(names[n - 1] == b[i - a.len()].0.name);
            }
        }
    }
}

proof fn lemma_signals_flag(v: Seq<(MethodView, bool)>, n: int)
    requires
        0 <= n <= v.len(),
    ensures
        forall|i: int| 0 <= i < signals_of(v, n).len() ==> (#[trigger] signals_of(v, n)[i]).1,
    decreases n,
{
    if n > 0 {
        lemma_signals_flag(v, n - 1);
        let before = signals_of(v, n - 1);
        assert forall|i: int| 0 <= i < signals_of(v, n).len() implies (#[trigger] signals_of(
            v,
            n,
        )[i]).1 by {
            if i < before.len() {
                assert(before[i].1);
            }
        }
    }
}

/// Where there is a list of methods to keep, only methods in it are bound;
/// where it is empty, none is.
pub proof fn law_only_listed_methods(
    c: CppClass,
    spec: ClassSpec,
    map: Map<Seq<char>, Seq<char>>,
    lines: Seq<u32>,
    i: int,
)
    requires
        spec.include_only is Some,
        0 <= i < bound_methods(c, spec, map, lines, false).len(),
    ensures
        views(spec.include_only->0@).contains(bound_methods(c, spec, map, lines, false)[i].name),
{
    let f = found_methods(c, spec, map, lines, c.members@.len() as int);
    let names = allow_list(spec)->0;
    let v = ordered(f, allow_list(spec));
    let b = bound_methods(c, spec, map, lines, false);
    lemma_distinct(v, false, v.len() as int);
    assert(b.contains(b[i]));
    assert(v.take(v.len() as int) =~= v);
    let k = choose|k: int| 0 <= k < v.len() && v[k] == (b[i], false);
    let head = in_list_order(f, names, names.len() as int);
    lemma_in_list_order(f, names, names.len() as int);
    lemma_signals_flag(f, f.len() as int);
    if k < head.len() {
        assert(v[k] == head[k]);
    } else {
        assert(v[k] == signals_of(f, f.len() as int)[k - head.len()]);
    }
}

/// A method whose success flag can be lifted never shows the flag: every
/// overload can fail, and has one parameter less than the call.
pub proof fn law_lifted_methods_hide_the_flag(name: Seq<char>, ret: Ty, s: ParamScan, i: int)
    requires
        s.ok_at is Some,
        0 <= s.ok_at->0 < s.params.len(),
        s.defaults.len() == s.params.len(),
        ret != Ty::Void,
        0 <= i < overloads(name, ret, s).len(),
    ensures
        overloads(name, ret, s)[i].lifted,
        exists|n: int|
            s.ok_at->0 < n <= s.params.len() && overloads(name, ret, s)[i].params
                == #[trigger] s.params.take(n).remove(s.ok_at->0),
{
    let at = s.ok_at->0;
    let max = s.params.len() as int;
    let min = max - trailing(s.defaults);
    let low = if at + 1 > min {
        at + 1
    } else {
        min
    };
    assert(overloads(name, ret, s)[i].params == s.params.take(low + i).remove(at));
}

/// The overloads of a method without a success flag differ in their number of
/// parameters by one each, and the last has them all.
pub proof fn law_overloads_grow(name: Seq<char>, ret: Ty, s: ParamScan, i: int)
    requires
        s.ok_at is None,
        s.defaults.len() == s.params.len(),
        0 <= i < overloads(name, ret, s).len(),
    ensures
        overloads(name, ret, s).len() == trailing(s.defaults) + 1,
        overloads(name, ret, s)[i].params == s.params.take(
            s.params.len() - trailing(s.defaults) + i,
        ),
        overloads(name, ret, s).last().params == s.params,
{
    assert(s.params.take(s.params.len() as int) =~= s.params);
}

} // verus!
