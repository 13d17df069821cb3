//! From the declarations of headers to the classes that are bound.

use crate::cpp::CppClass;
use crate::dict::Dict;
use crate::methods::{bound_methods, collect_public_methods};
use crate::qpi_types::{
    method_views, property_views, ClassKind, ClassSpec, CollectedClass, EnumVariantInfo,
};
use crate::scrape::{
    enum_names_of, first_base, properties_from, scrape_class_body, signal_scan, ClassBodyScrape,
    Decl, DeclKind, EnumConstant, SourceToken,
};
use crate::text::{
    ends_with, has_char, has_suffix, lemma_views_push, opt_view, same, trim, trimmed, views,
};
use crate::type_table::{build_type_map, known_types};
use crate::typesystem::{texts, ClangConfig, TypeSystem};
use vstd::prelude::*;
use vstd::string::*;

verus! {

// ---- looking for declarations ---------------------------------------------------------

pub open spec fn is_named(d: Decl, name: Seq<char>) -> bool {
    opt_view(d.name) == Some(name)
}

/// The first enum with a name among the declarations from `i` on. Enums are
/// looked for in namespaces, classes and structs too.
pub open spec fn enum_found(v: Vec<Decl>, name: Seq<char>, i: nat) -> Option<Decl>
    decreases v, v@.len() - i,
{
    if i >= v@.len() {
        None
    } else {
        let d = v@[i as int];
        if d.kind == DeclKind::Enum && is_named(d, name) {
            Some(d)
        } else {
            let inner = match d.kind {
                DeclKind::Namespace | DeclKind::Class | DeclKind::Struct => enum_found(
                    d.children,
                    name,
                    0,
                ),
                _ => None,
            };
            if inner is Some {
                inner
            } else {
                enum_found(v, name, i + 1)
            }
        }
    }
}

/// The first class or struct with a name that is defined, among the
/// declarations from `i` on and what they hold.
pub open spec fn class_found(v: Vec<Decl>, name: Seq<char>, i: nat) -> Option<Decl>
    decreases v, v@.len() - i,
{
    if i >= v@.len() {
        None
    } else {
        let d = v@[i as int];
        if (d.kind == DeclKind::Class || d.kind == DeclKind::Struct) && is_named(d, name)
            && d.is_definition {
            Some(d)
        } else {
            let inner = class_found(d.children, name, 0);
            if inner is Some {
                inner
            } else {
                class_found(v, name, i + 1)
            }
        }
    }
}

/// A declaration by its content.
pub open spec fn found_decl(r: Option<&Decl>) -> Option<Decl> {
    match r {
        Some(d) => Some(*d),
        None => None,
    }
}

fn has_name(d: &Decl, name: &str) -> (r: bool)
    ensures
        r == is_named(*d, name@),
{
    match &d.name {
        Some(n) => same(n.as_str(), name),
        None => false,
    }
}

/// The first enum with a name.
pub fn find_enum<'a>(root: &'a Vec<Decl>, name: &str) -> (r: Option<&'a Decl>)
    ensures
        found_decl(r) == enum_found(*root, name@, 0),
    decreases *root,
{
    let mut i: usize = 0;
    while i < root.len()
        invariant
            i <= root@.len(),
            enum_found(*root, name@, 0) == enum_found(*root, name@, i as nat),
        decreases root@.len() - i,
    {
        let d = &root[i];
        assert(decreases_to!(*root => root[i as int]));
        match d.kind {
            DeclKind::Enum => {
                if has_name(d, name) {
                    return Some(d);
                }
            },
            DeclKind::Namespace | DeclKind::Class | DeclKind::Struct => {
                match find_enum(&d.children, name) {
                    Some(e) => {
                        return Some(e);
                    },
                    None => {},
                }
            },
            _ => {},
        }
        i += 1;
    }
    None
}

/// The first class or struct with a name that is defined.
pub fn find_class<'a>(root: &'a Vec<Decl>, name: &str) -> (r: Option<&'a Decl>)
    ensures
        found_decl(r) == class_found(*root, name@, 0),
    decreases *root,
{
    let mut i: usize = 0;
    while i < root.len()
        invariant
            i <= root@.len(),
            class_found(*root, name@, 0) == class_found(*root, name@, i as nat),
        decreases root@.len() - i,
    {
        let d = &root[i];
        assert(decreases_to!(*root => root[i as int]));
        let is_class = match d.kind {
            DeclKind::Class | DeclKind::Struct => true,
            _ => false,
        };
        if is_class && has_name(d, name) && d.is_definition {
            return Some(d);
        }
        match find_class(&d.children, name) {
            Some(c) => {
                return Some(c);
            },
            None => {},
        }
        i += 1;
    }
    None
}

// ---- enums ----------------------------------------------------------------------------

/// The position of the first `=` from `i` on, or the length.
pub open spec fn equals_at(v: Seq<SourceToken>, i: int) -> int
    decreases v.len() - i,
{
    if i >= v.len() || v[i].spelling@ == "="@ {
        i
    } else {
        equals_at(v, i + 1)
    }
}

/// The token with what stands before it. A line break becomes a space.
pub open spec fn spaced(t: SourceToken) -> Seq<char> {
    (if t.gap@.contains('\n') {
        " "@
    } else {
        t.gap@
    }) + t.spelling@
}

/// The source from token `i` up to token `n`.
pub open spec fn source_text(v: Seq<SourceToken>, i: int, n: int) -> Seq<char>
    decreases n - i,
{
    if i >= n {
        Seq::empty()
    } else {
        source_text(v, i, n - 1) + spaced(v[n - 1])
    }
}

/// The value of a constant: what stands behind the `=`, as it is written.
pub open spec fn constant_value(c: EnumConstant) -> Option<Seq<char>> {
    match c.tokens {
        Some(t) => {
            let e = equals_at(t@, 0);
            if e + 1 < t@.len() {
                Some(trim(source_text(t@, e + 1, t@.len() as int)))
            } else {
                None
            }
        },
        None => None,
    }
}

/// A variant by its name and value.
pub open spec fn variant_view(v: EnumVariantInfo) -> (Seq<char>, Option<Seq<char>>) {
    (v.name@, opt_view(v.value_text))
}

pub open spec fn variant_views(v: Seq<EnumVariantInfo>) -> Seq<(Seq<char>, Option<Seq<char>>)> {
    Seq::new(v.len(), |i: int| variant_view(v[i]))
}

/// The variants of an enum: its constants in their order.
pub open spec fn enum_variants(v: Seq<EnumConstant>) -> Seq<(Seq<char>, Option<Seq<char>>)> {
    Seq::new(
        v.len(),
        |i: int|
            (
                match v[i].name {
                    Some(n) => n@,
                    None => Seq::empty(),
                },
                constant_value(v[i]),
            ),
    )
}

/// The value of a constant.
pub fn enum_constant_value_text(c: &EnumConstant) -> (r: Option<String>)
    ensures
        opt_view(r) == constant_value(*c),
{
    match &c.tokens {
        Some(t) => {
            let n: usize = t.len();
            let mut e: usize = 0;
            while e < n && !same(t[e].spelling.as_str(), "=")
                invariant
                    e <= n,
                    n == t@.len(),
                    equals_at(t@, 0) == equals_at(t@, e as int),
                decreases n - e,
            {
                e += 1;
            }
            if n - e <= 1 {
                return None;
            }
            let mut out = String::new();
            assert(out@ =~= Seq::<char>::empty());
            let mut i: usize = e + 1;
            while i < n
                invariant
                    e + 1 <= i <= n,
                    n == t@.len(),
                    out@ == source_text(t@, e + 1, i as int),
                decreases n - i,
            {
                let gap = if has_char(t[i].gap.as_str(), '\n') {
                    " ".to_owned()
                } else {
                    t[i].gap.clone()
                };
                let one = gap.concat(t[i].spelling.as_str());
                out = out.concat(one.as_str());
                i += 1;
            }
            Some(trimmed(out.as_str()))
        },
        None => None,
    }
}

/// The variants of an enum.
pub fn collect_enum_variants(v: &Vec<EnumConstant>) -> (r: Vec<EnumVariantInfo>)
    ensures
        variant_views(r@) == enum_variants(v@),
{
    let mut out: Vec<EnumVariantInfo> = Vec::new();
    let mut i: usize = 0;
    while i < v.len()
        invariant
            i <= v@.len(),
            variant_views(out@) == enum_variants(v@).take(i as int),
        decreases v@.len() - i,
    {
        let name = match &v[i].name {
            Some(n) => n.clone(),
            None => String::new(),
        };
        proof {
            if v@[i as int].name is None {
                assert(name@ =~= Seq::<char>::empty());
            }
        }
        let value_text = enum_constant_value_text(&v[i]);
        let new = EnumVariantInfo { name, value_text };
        let ghost nv = variant_view(new);
        let ghost before = out@;
        assert(nv == enum_variants(v@)[i as int]);
        out.push(new);
        assert(variant_views(out@) =~= variant_views(before).push(nv));
        i += 1;
        assert(variant_views(out@) =~= enum_variants(v@).take(i as int));
    }
    assert(variant_views(out@) =~= enum_variants(v@));
    out
}

// ---- classes --------------------------------------------------------------------------

/// Why a class cannot be collected from the declarations of its header.
pub open spec fn collect_error(spec: ClassSpec, root: Vec<Decl>) -> Option<Seq<char>> {
    match spec.kind {
        ClassKind::Enum => match enum_found(root, spec.name@, 0) {
            Some(_) => None,
            None => Some("enum `"@ + spec.name@ + "` not found in "@ + spec.header@),
        },
        ClassKind::Flags => None,
        _ => match class_found(root, spec.name@, 0) {
            Some(d) => if d.class is Some {
                None
            } else {
                Some("class `"@ + spec.name@ + "` not found in "@ + spec.header@)
            },
            None => Some("class `"@ + spec.name@ + "` not found in "@ + spec.header@),
        },
    }
}

pub open spec fn has_no_methods(c: CollectedClass) -> bool {
    c.methods@.len() == 0 && c.signals@.len() == 0 && c.properties@.len() == 0
        && c.detected_super is None
}

/// The methods and signals of a collected class are those of `class`, with
/// signals on `lines`.
pub open spec fn has_methods_of(
    c: CollectedClass,
    class: CppClass,
    map: Map<Seq<char>, Seq<char>>,
    lines: Seq<u32>,
) -> bool {
    &&& method_views(c.methods@) == bound_methods(class, c.spec, map, lines, false)
    &&& method_views(c.signals@) == bound_methods(class, c.spec, map, lines, true)
}

/// The properties and the base class of a collected object class are those of
/// `class`, and its methods too.
pub open spec fn is_object_of(
    c: CollectedClass,
    class: CppClass,
    root: Vec<Decl>,
    map: Map<Seq<char>, Seq<char>>,
) -> bool {
    &&& opt_view(c.detected_super) == first_base(class.bases@, 0)
    &&& match class.tokens {
        Some(t) => {
            &&& property_views(c.properties@) == properties_from(
                t@,
                0,
                map,
                enum_names_of(root, None, None, root@.len()),
            )
            &&& has_methods_of(c, class, map, signal_scan(t@, t@.len() as int).lines)
        },
        None => {
            &&& c.properties@.len() == 0
            &&& has_methods_of(c, class, map, Seq::empty())
        },
    }
}

/// `c` holds what its description asks of the declarations `root`: the
/// variants of an enum; nothing of a flags type; the methods of a value type;
/// the methods, signals, properties and base class of an object class.
pub open spec fn is_collected(
    c: CollectedClass,
    root: Vec<Decl>,
    map: Map<Seq<char>, Seq<char>>,
) -> bool {
    match c.spec.kind {
        ClassKind::Enum => match enum_found(root, c.spec.name@, 0) {
            Some(d) => has_no_methods(c) && variant_views(c.enum_variants@) == enum_variants(
                d.constants@,
            ),
            None => false,
        },
        ClassKind::Flags => has_no_methods(c) && c.enum_variants@.len() == 0,
        _ => match class_found(root, c.spec.name@, 0) {
            Some(d) => match d.class {
                Some(class) => c.enum_variants@.len() == 0 && if c.spec.kind == ClassKind::Object {
                    is_object_of(c, class, root, map)
                } else {
                    &&& c.properties@.len() == 0
                    &&& c.detected_super is None
                    &&& has_methods_of(c, class, map, Seq::empty())
                },
                None => false,
            },
            None => false,
        },
    }
}

fn not_found(what: &str, spec: &ClassSpec) -> (r: String)
    ensures
        r@ == what@ + spec.name@ + "` not found in "@ + spec.header@,
{
    what.to_owned().concat(spec.name.as_str()).concat("` not found in ").concat(
        spec.header.as_str(),
    )
}

/// Collects a class from the declarations of its header.
pub fn collect_one(
    root: &Vec<Decl>,
    spec: ClassSpec,
    type_map: &Dict<String>,
) -> (r: Result<CollectedClass, String>)
    ensures
        match collect_error(spec, *root) {
            Some(m) => match r {
                Err(e) => e@ == m,
                Ok(_) => false,
            },
            None => match r {
                Ok(c) => c.spec == spec && is_collected(c, *root, texts(type_map@)),
                Err(_) => false,
            },
        },
{
    match spec.kind {
        ClassKind::Enum => match find_enum(root, spec.name.as_str()) {
            Some(d) => {
                let enum_variants = collect_enum_variants(&d.constants);
                Ok(
                    CollectedClass {
                        spec,
                        methods: Vec::new(),
                        signals: Vec::new(),
                        properties: Vec::new(),
                        detected_super: None,
                        enum_variants,
                    },
                )
            },
            None => Err(not_found("enum `", &spec)),
        },
        ClassKind::Flags => Ok(
            CollectedClass {
                spec,
                methods: Vec::new(),
                signals: Vec::new(),
                properties: Vec::new(),
                detected_super: None,
                enum_variants: Vec::new(),
            },
        ),
        ClassKind::Value | ClassKind::Object => {
            let class = match find_class(root, spec.name.as_str()) {
                Some(d) => match &d.class {
                    Some(c) => c,
                    None => {
                        return Err(not_found("class `", &spec));
                    },
                },
                None => {
                    return Err(not_found("class `", &spec));
                },
            };
            let scrape = match spec.kind {
                ClassKind::Object => scrape_class_body(class, root, type_map),
                _ => ClassBodyScrape {
                    signal_lines: Vec::new(),
                    properties: Vec::new(),
                    super_name: None,
                },
            };
            let (methods, signals) = collect_public_methods(
                class,
                &spec,
                type_map,
                &scrape.signal_lines,
            );
            assert(scrape.signal_lines@.len() == 0 ==> scrape.signal_lines@ =~= Seq::empty());
            Ok(
                CollectedClass {
                    spec,
                    methods,
                    signals,
                    properties: scrape.properties,
                    detected_super: scrape.super_name,
                    enum_variants: Vec::new(),
                },
            )
        },
    }
}

/// Why class `i` cannot be collected from what the parser gave for its header.
pub open spec fn class_error(
    spec: ClassSpec,
    parsed: Result<Vec<Decl>, String>,
) -> Option<Seq<char>> {
    match parsed {
        Ok(root) => collect_error(spec, root),
        Err(e) => Some("clang parse failed for "@ + spec.header@ + ": "@ + e@),
    }
}

/// Collects the classes of a type system in their order. `parsed` is what the
/// parser gave for the header of each class; the first class that cannot be
/// collected is an error.
pub fn collect(
    ts: TypeSystem,
    parsed: &Vec<Result<Vec<Decl>, String>>,
) -> (r: Result<Vec<CollectedClass>, String>)
    requires
        parsed@.len() == ts.classes@.len(),
    ensures
        match r {
            Ok(v) => {
                &&& v@.len() == ts.classes@.len()
                &&& forall|i: int|
                    0 <= i < v@.len() ==> {
                        &&& class_error(ts.classes@[i], parsed@[i]) is None
                        &&& (#[trigger] v@[i]).spec == ts.classes@[i]
                        &&& is_collected(
                            v@[i],
                            parsed@[i]->Ok_0,
                            known_types(ts.classes@, texts(ts.type_map@)),
                        )
                    }
            },
            Err(e) => exists|i: int|
                0 <= i < ts.classes@.len() && (#[trigger] class_error(ts.classes@[i], parsed@[i]))
                    == Some(e@) && forall|j: int|
                    0 <= j < i ==> (#[trigger] class_error(ts.classes@[j], parsed@[j])) is None,
        },
{
    let map = build_type_map(&ts);
    let ghost t = known_types(ts.classes@, texts(ts.type_map@));
    let ghost specs = ts.classes@;
    let classes = ts.classes;
    let mut out: Vec<CollectedClass> = Vec::new();
    for spec in it: classes
        invariant
            it.seq() == specs,
            specs == ts.classes@,
            parsed@.len() == specs.len(),
            texts(map@) == t,
            out@.len() == it.index(),
            forall|j: int|
                0 <= j < it.index() ==> (#[trigger] class_error(specs[j], parsed@[j])) is None,
            forall|i: int|
                0 <= i < it.index() ==> (#[trigger] out@[i]).spec == specs[i] && is_collected(
                    out@[i],
                    parsed@[i]->Ok_0,
                    t,
                ),
    {
        let ghost i = it.index() as int;
        let ghost this = spec;
        assert(this == specs[i]);
        let at: usize = out.len();
        match &parsed[at] {
            Ok(root) => match collect_one(root, spec, &map) {
                Ok(c) => {
                    assert(class_error(specs[i], parsed@[i]) is None);
                    out.push(c);
                },
                Err(e) => {
                    assert(class_error(specs[i], parsed@[i]) == Some(e@));
                    return Err(e);
                },
            },
            Err(e) => {
                let m = "clang parse failed for ".to_owned().concat(spec.header.as_str()).concat(
                    ": ",
                ).concat(e.as_str());
                assert(class_error(specs[i], parsed@[i]) == Some(m@));
                return Err(m);
            },
        }
    }
    proof {
        assert forall|i: int| 0 <= i < out@.len() implies {
            &&& class_error(ts.classes@[i], parsed@[i]) is None
            &&& (#[trigger] out@[i]).spec == ts.classes@[i]
            &&& is_collected(
                out@[i],
                parsed@[i]->Ok_0,
                known_types(ts.classes@, texts(ts.type_map@)),
            )
        } by {
            assert(class_error(specs[i], parsed@[i]) is None);
        }
    }
    Ok(out)
}

// ---- one class ------------------------------------------------------------------------

/// A description that asks for all of a class.
pub open spec fn asks_for_all(
    c: ClassSpec,
    header: Seq<char>,
    name: Seq<char>,
    kind: ClassKind,
) -> bool {
    &&& c.name@ == name
    &&& c.header@ == header
    &&& c.kind == kind
    &&& c.super_name is None
    &&& c.include_only is None
    &&& c.exclude@.len() == 0
    &&& !c.include_statics
    &&& c.params@ == Map::<Seq<char>, Vec<String>>::empty()
    &&& c.comment is None
    &&& c.flags_of is None
    &&& c.cpp_namespace is None
}

/// The type system for one class. `frameworks` is the directory of frameworks
/// that the header stands in, where there is one.
pub fn one_off_system(
    header: String,
    class_name: String,
    includes: Vec<String>,
    std_flag: String,
    kind: ClassKind,
    frameworks: Option<String>,
) -> (r: TypeSystem)
    ensures
        r.vars@ == Map::<Seq<char>, String>::empty(),
        r.type_map@ == Map::<Seq<char>, String>::empty(),
        r.clang.includes == includes,
        r.clang.std == Some(std_flag),
        r.clang.frameworks@ == match frameworks {
            Some(f) => seq![f],
            None => Seq::empty(),
        },
        r.classes@.len() == 1,
        asks_for_all(r.classes@[0], header@, class_name@, kind),
{
    let mut dirs: Vec<String> = Vec::new();
    match frameworks {
        Some(f) => {
            dirs.push(f);
        },
        None => {},
    }
    let spec = ClassSpec {
        name: class_name,
        kind,
        super_name: None,
        header,
        include_only: None,
        exclude: Vec::new(),
        include_statics: false,
        params: Dict::new(),
        comment: None,
        flags_of: None,
        cpp_namespace: None,
    };
    let mut classes: Vec<ClassSpec> = Vec::new();
    classes.push(spec);
    TypeSystem {
        vars: Dict::new(),
        clang: ClangConfig { includes, frameworks: dirs, std: Some(std_flag) },
        type_map: Dict::new(),
        classes,
    }
}

/// Collects all of one class. `parsed` is what the parser gave for the header.
pub fn collect_one_off(
    header: String,
    class_name: String,
    includes: Vec<String>,
    std_flag: String,
    kind: ClassKind,
    frameworks: Option<String>,
    parsed: Result<Vec<Decl>, String>,
) -> (r: Result<Vec<CollectedClass>, String>)
    ensures
        match r {
            Ok(v) => {
                &&& v@.len() == 1
                &&& asks_for_all(v@[0].spec, header@, class_name@, kind)
                &&& parsed is Ok
                &&& is_collected(
                    v@[0],
                    parsed->Ok_0,
                    known_types(seq![v@[0].spec], Map::empty()),
                )
            },
            Err(e) => exists|c: ClassSpec|
                asks_for_all(c, header@, class_name@, kind) && (#[trigger] class_error(c, parsed))
                    == Some(e@),
        },
{
    let ghost h = header@;
    let ghost n = class_name@;
    let ts = one_off_system(header, class_name, includes, std_flag, kind, frameworks);
    let ghost spec = ts.classes@[0];
    let mut list: Vec<Result<Vec<Decl>, String>> = Vec::new();
    list.push(parsed);
    proof {
        assert(ts.classes@ =~= seq![spec]);
        assert(texts(ts.type_map@) =~= Map::empty());
        assert(list@[0] == parsed);
    }
    let r = collect(ts, &list);
    proof {
        if r is Ok {
            assert(r->Ok_0@[0].spec == spec);
            assert(class_error(spec, parsed) is None);
        } else {
            let e = r->Err_0@;
            let i = choose|i: int|
                0 <= i < ts.classes@.len() && (#[trigger] class_error(ts.classes@[i], list@[i]))
                    == Some(e);
            assert(i == 0);
            assert(class_error(spec, parsed) == Some(e));
        }
    }
    r
}

// ---- the parser -----------------------------------------------------------------------

/// A flag before each of the first `n` directories.
pub open spec fn flag_each(v: Seq<Seq<char>>, flag: Seq<char>, n: int) -> Seq<Seq<char>>
    decreases n,
{
    if n <= 0 {
        Seq::empty()
    } else {
        flag_each(v, flag, n - 1).push(flag).push(v[n - 1])
    }
}

/// What the parser is called with: the standard, the language, the include
/// directories and the framework directories. Where no framework directory is
/// set, it is the one that the header stands in.
pub open spec fn parser_args(
    std_flag: Seq<char>,
    includes: Seq<Seq<char>>,
    frameworks: Seq<Seq<char>>,
    fallback: Option<Seq<char>>,
) -> Seq<Seq<char>> {
    let base = seq!["-std="@ + std_flag, "-x"@, "c++"@] + flag_each(
        includes,
        "-isystem"@,
        includes.len() as int,
    );
    if frameworks.len() > 0 {
        base + flag_each(frameworks, "-F"@, frameworks.len() as int)
    } else {
        match fallback {
            Some(f) => base + seq!["-F"@, f],
            None => base,
        }
    }
}

/// The language standard; C++17 where none is set.
pub open spec fn standard(cfg: ClangConfig) -> Seq<char> {
    match cfg.std {
        Some(s) => s@,
        None => "c++17"@,
    }
}

fn push_flagged(out: Vec<String>, v: &Vec<String>, flag: &str) -> (r: Vec<String>)
    ensures
        views(r@) == views(out@) + flag_each(views(v@), flag@, v@.len() as int),
{
    let ghost start = views(out@);
    let mut out = out;
    assert(start =~= start + Seq::<Seq<char>>::empty());
    let mut i: usize = 0;
    while i < v.len()
        invariant
            i <= v@.len(),
            views(out@) == start + flag_each(views(v@), flag@, i as int),
        decreases v@.len() - i,
    {
        let ghost done = flag_each(views(v@), flag@, i as int);
        let f = flag.to_owned();
        let d = v[i].clone();
        proof {
            lemma_views_push(out@, f);
            lemma_views_push(out@.push(f), d);
            assert((start + done).push(f@).push(d@) =~= start + done.push(f@).push(d@));
        }
        out.push(f);
        out.push(d);
        i += 1;
    }
    out
}

/// What the parser is called with for a header.
pub fn clang_args(cfg: &ClangConfig, fallback: &Option<String>) -> (r: Vec<String>)
    ensures
        views(r@) == parser_args(
            standard(*cfg),
            views(cfg.includes@),
            views(cfg.frameworks@),
            opt_view(*fallback),
        ),
{
    let std_flag = match &cfg.std {
        Some(s) => s.clone(),
        None => "c++17".to_owned(),
    };
    let mut args: Vec<String> = Vec::new();
    args.push("-std=".to_owned().concat(std_flag.as_str()));
    args.push("-x".to_owned());
    args.push("c++".to_owned());
    assert(views(args@) =~= seq!["-std="@ + standard(*cfg), "-x"@, "c++"@]);
    assert(views(cfg.includes@).len() == cfg.includes@.len());
    assert(views(cfg.frameworks@).len() == cfg.frameworks@.len());
    args = push_flagged(args, &cfg.includes, "-isystem");
    if cfg.frameworks.len() > 0 {
        push_flagged(args, &cfg.frameworks, "-F")
    } else {
        let ghost base = args@;
        match fallback {
            Some(f) => {
                args.push("-F".to_owned());
                args.push(f.clone());
                assert(views(args@) =~= views(base) + seq!["-F"@, f@]);
            },
            None => {},
        }
        args
    }
}

/// A directory, and the names in it where it can be read.
#[derive(Debug)]
pub struct Listing {
    pub path: String,
    pub names: Option<Vec<String>>,
}

/// The name of a framework: something before the extension.
pub open spec fn is_framework(name: Seq<char>) -> bool {
    name.len() > ".framework"@.len() && ends_with(name, ".framework"@)
}

/// The directory holds a framework.
pub open spec fn holds_framework(l: Listing) -> bool {
    match l.names {
        Some(v) => exists|i: int| 0 <= i < v@.len() && is_framework(#[trigger] v@[i]@),
        None => false,
    }
}

/// The first of the directories from `i` on that holds a framework.
pub open spec fn framework_dir(v: Seq<Listing>, i: int) -> Option<Seq<char>>
    decreases v.len() - i,
{
    if i < 0 || i >= v.len() {
        None
    } else if holds_framework(v[i]) {
        Some(v[i].path@)
    } else {
        framework_dir(v, i + 1)
    }
}

fn lists_framework(names: &Vec<String>) -> (r: bool)
    ensures
        r == exists|i: int| 0 <= i < names@.len() && is_framework(#[trigger] names@[i]@),
{
    let mut i: usize = 0;
    while i < names.len()
        invariant
            i <= names@.len(),
            forall|j: int| 0 <= j < i ==> !is_framework(#[trigger] names@[j]@),
        decreases names@.len() - i,
    {
        let s = names[i].as_str();
        if has_suffix(s, ".framework") && !same(s, ".framework") {
            proof {
                reveal_strlit(".framework");
                if names@[i as int]@.len() == ".framework"@.len() {
                    assert(names@[i as int]@ =~= ".framework"@);
                }
                assert(is_framework(names@[i as int]@));
            }
            return true;
        }
        i += 1;
    }
    false
}

/// The directory of frameworks that a header stands in. `above` are the
/// directories above that of the header, the nearest first.
pub fn walk_up_to_frameworks(above: &Vec<Listing>) -> (r: Option<String>)
    ensures
        opt_view(r) == framework_dir(above@, 0),
{
    let mut i: usize = 0;
    while i < above.len()
        invariant
            i <= above@.len(),
            framework_dir(above@, 0) == framework_dir(above@, i as int),
        decreases above@.len() - i,
    {
        match &above[i].names {
            Some(names) => {
                if lists_framework(names) {
                    return Some(above[i].path.clone());
                }
            },
            None => {},
        }
        i += 1;
    }
    None
}

/// The kind that is named on the command line.
pub open spec fn kind_named(s: Seq<char>) -> Option<ClassKind> {
    if s == "value"@ {
        Some(ClassKind::Value)
    } else if s == "object"@ {
        Some(ClassKind::Object)
    } else if s == "enum"@ {
        Some(ClassKind::Enum)
    } else if s == "flags"@ {
        Some(ClassKind::Flags)
    } else {
        None
    }
}

/// Reads a kind.
pub fn parse_kind(s: &str) -> (r: Result<ClassKind, String>)
    ensures
        match kind_named(s@) {
            Some(k) => r == Ok::<ClassKind, String>(k),
            None => match r {
                Err(e) => e@ == "--kind: expected `value` / `object` / `enum` / `flags`, got `"@ + s@
                    + "`"@,
                Ok(_) => false,
            },
        },
{
    if same(s, "value") {
        Ok(ClassKind::Value)
    } else if same(s, "object") {
        Ok(ClassKind::Object)
    } else if same(s, "enum") {
        Ok(ClassKind::Enum)
    } else if same(s, "flags") {
        Ok(ClassKind::Flags)
    } else {
        Err(
            "--kind: expected `value` / `object` / `enum` / `flags`, got `".to_owned().concat(
                s,
            ).concat("`"),
        )
    }
}

/// What a run is asked for.
#[derive(Debug)]
pub enum Request {
    /// All classes of a type system.
    System(String),
    /// One class of a header.
    Class { header: String, class: String, kind: ClassKind },
}

/// What the command line asks for: a type system comes first, then a header
/// together with a class.
pub fn plan_run(
    typesystem: Option<String>,
    header: Option<String>,
    class: Option<String>,
    kind: &str,
) -> (r: Result<Request, String>)
    ensures
        match (typesystem, header, class) {
            (Some(t), _, _) => r == Ok::<Request, String>(Request::System(t)),
            (None, Some(h), Some(c)) => match kind_named(kind@) {
                Some(k) => r == Ok::<Request, String>(
                    (Request::Class { header: h, class: c, kind: k }),
                ),
                None => match r {
                    Err(e) => e@ == "--kind: expected `value` / `object` / `enum` / `flags`, got `"@
                        + kind@ + "`"@,
                    Ok(_) => false,
                },
            },
            _ => match r {
                Err(e) => e@
                    == "either --typesystem PATH or (--header PATH --class NAME) is required"@,
                Ok(_) => false,
            },
        },
{
    match typesystem {
        Some(t) => Ok(Request::System(t)),
        None => match (header, class) {
            (Some(header), Some(class)) => match parse_kind(kind) {
                Ok(kind) => Ok(Request::Class { header, class, kind }),
                Err(e) => Err(e),
            },
            _ => Err(
                "either --typesystem PATH or (--header PATH --class NAME) is required".to_owned(),
            ),
        },
    }
}

} // verus!
