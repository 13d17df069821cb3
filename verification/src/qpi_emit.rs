//! Binding files: the declarations of collected classes as text.

use crate::dict::Dict;
use crate::qpi_types::{
    ClassKind, CollectedClass, CuteType, EnumVariantInfo, Method, Param, Property,
};
use crate::text::{has_char, join, joined, lemma_views_push, lines, text_lines, views};
use vstd::prelude::*;
use vstd::string::*;

verus! {

// ---- models -----------------------------------------------------------------------

/// A type as it is written; nothing is written for no type.
pub open spec fn type_text(t: CuteType) -> Seq<char> {
    match t {
        CuteType::Named(s) => s@,
        CuteType::Void => Seq::empty(),
    }
}

/// The types of parameters as they are written.
pub open spec fn type_texts(params: Seq<Param>) -> Seq<Seq<char>> {
    Seq::new(params.len(), |i: int| type_text(params[i].ty))
}

/// A method by its name and the types of its parameters.
pub open spec fn signature_text(name: Seq<char>, params: Seq<Param>) -> Seq<char> {
    name + "("@ + join(type_texts(params), ","@) + ")"@
}

/// The parameter names that are set for a method: those for its signature
/// come before those for its name.
pub open spec fn names_for(
    overrides: Map<Seq<char>, Vec<String>>,
    name: Seq<char>,
    params: Seq<Param>,
) -> Seq<Seq<char>> {
    let sig = signature_text(name, params);
    if overrides.contains_key(sig) {
        views(overrides[sig]@)
    } else if overrides.contains_key(name) {
        views(overrides[name]@)
    } else {
        Seq::empty()
    }
}

/// The parameters as they are written. The names that are set replace those of
/// the first parameters.
pub open spec fn param_texts(names: Seq<Seq<char>>, params: Seq<Param>) -> Seq<Seq<char>> {
    Seq::new(
        params.len(),
        |i: int|
            (if i < names.len() {
                names[i]
            } else {
                params[i].name@
            }) + ": "@ + type_text(params[i].ty),
    )
}

/// A parameter list as it is written; nothing is written for an empty one.
pub open spec fn params_text(
    s: Seq<char>,
    overrides: Map<Seq<char>, Vec<String>>,
    name: Seq<char>,
    params: Seq<Param>,
) -> Seq<char> {
    if params.len() == 0 {
        s
    } else {
        s + "("@ + join(param_texts(names_for(overrides, name, params), params), ", "@) + ")"@
    }
}

/// The end of a method's line: its return type, and the mark of one that can
/// fail.
pub open spec fn return_text(s: Seq<char>, ty: CuteType, lifted: bool) -> Seq<char> {
    let typed = match ty {
        CuteType::Void => s,
        CuteType::Named(t) => if lifted {
            s + " !"@ + t@
        } else {
            s + " "@ + t@
        },
    };
    if lifted {
        typed + " @lifted_bool_ok\n"@
    } else {
        typed + "\n"@
    }
}

pub open spec fn method_text(
    s: Seq<char>,
    m: Method,
    overrides: Map<Seq<char>, Vec<String>>,
) -> Seq<char> {
    return_text(
        params_text(s + "  fn "@ + m.name@, overrides, m.name@, m.params@),
        m.return_ty,
        m.lifted_bool_ok,
    )
}

/// The lines of the first `n` methods.
pub open spec fn methods_text(
    s: Seq<char>,
    methods: Seq<Method>,
    overrides: Map<Seq<char>, Vec<String>>,
    n: int,
) -> Seq<char>
    decreases n,
{
    if n <= 0 {
        s
    } else {
        method_text(methods_text(s, methods, overrides, n - 1), methods[n - 1], overrides)
    }
}

/// The lines of the first `n` signals.
pub open spec fn signals_text(
    s: Seq<char>,
    signals: Seq<Method>,
    overrides: Map<Seq<char>, Vec<String>>,
    n: int,
) -> Seq<char>
    decreases n,
{
    if n <= 0 {
        s
    } else {
        let m = signals[n - 1];
        params_text(
            signals_text(s, signals, overrides, n - 1) + "  signal "@ + m.name@,
            overrides,
            m.name@,
            m.params@,
        ) + "\n"@
    }
}

/// The lines of the first `n` properties.
pub open spec fn properties_text(s: Seq<char>, properties: Seq<Property>, n: int) -> Seq<char>
    decreases n,
{
    if n <= 0 {
        s
    } else {
        properties_text(s, properties, n - 1) + "  prop "@ + properties[n - 1].name@ + " : "@
            + type_text(properties[n - 1].ty) + "\n"@
    }
}

pub open spec fn value_class_text(
    s: Seq<char>,
    name: Seq<char>,
    methods: Seq<Method>,
    overrides: Map<Seq<char>, Vec<String>>,
) -> Seq<char> {
    methods_text(
        s + "extern value "@ + name + " {\n"@,
        methods,
        overrides,
        methods.len() as int,
    ) + "}\n"@
}

/// The base class: the one that is asked for comes before the one that was
/// found.
pub open spec fn base_class(c: CollectedClass) -> Option<Seq<char>> {
    match c.spec.super_name {
        Some(x) => Some(x@),
        None => match c.detected_super {
            Some(x) => Some(x@),
            None => None,
        },
    }
}

pub open spec fn object_head(s: Seq<char>, c: CollectedClass) -> Seq<char> {
    match base_class(c) {
        Some(b) => s + "class "@ + c.spec.name@ + " < "@ + b + " {\n"@,
        None => s + "class "@ + c.spec.name@ + " {\n"@,
    }
}

/// An empty line where `on` holds.
pub open spec fn gap_text(s: Seq<char>, on: bool) -> Seq<char> {
    if on {
        s + "\n"@
    } else {
        s
    }
}

pub open spec fn object_class_text(s: Seq<char>, c: CollectedClass) -> Seq<char> {
    let over = c.spec.params@;
    let props = c.properties@;
    let sigs = c.signals@;
    let s1 = gap_text(
        properties_text(object_head(s, c), props, props.len() as int),
        props.len() > 0 && sigs.len() > 0,
    );
    let s2 = gap_text(
        signals_text(s1, sigs, over, sigs.len() as int),
        c.methods@.len() > 0 && (props.len() > 0 || sigs.len() > 0),
    );
    methods_text(s2, c.methods@, over, c.methods@.len() as int) + "}\n"@
}

/// The value is written with an operator on bits.
pub open spec fn uses_bit_operator(t: Seq<char>) -> bool {
    t.contains('|') || t.contains('&') || t.contains('^') || t.contains('<') || t.contains('>')
}

pub open spec fn variant_text(s: Seq<char>, v: EnumVariantInfo) -> Seq<char> {
    match v.value_text {
        Some(t) => if uses_bit_operator(t@) {
            s + "  # skipped "@ + v.name@ + ": value uses bitwise op (`"@ + t@
                + "`) — Cute lacks these operators\n"@
        } else {
            s + "  "@ + v.name@ + " = "@ + t@ + "\n"@
        },
        None => s + "  "@ + v.name@ + "\n"@,
    }
}

/// The lines of the first `n` variants.
pub open spec fn variants_text(s: Seq<char>, v: Seq<EnumVariantInfo>, n: int) -> Seq<char>
    decreases n,
{
    if n <= 0 {
        s
    } else {
        variant_text(variants_text(s, v, n - 1), v[n - 1])
    }
}

/// The name of a class with its namespace.
pub open spec fn qualified_text(s: Seq<char>, c: CollectedClass) -> Seq<char> {
    match c.spec.cpp_namespace {
        Some(ns) => s + ns@ + "::"@ + c.spec.name@,
        None => s + c.spec.name@,
    }
}

pub open spec fn enum_text(s: Seq<char>, c: CollectedClass) -> Seq<char> {
    variants_text(
        qualified_text(s + "extern enum "@, c) + " {\n"@,
        c.enum_variants@,
        c.enum_variants@.len() as int,
    ) + "}\n"@
}

pub open spec fn flags_text(s: Seq<char>, c: CollectedClass) -> Seq<char> {
    qualified_text(s + "extern flags "@, c) + " of "@ + (match c.spec.flags_of {
        Some(x) => x@,
        None => "UNKNOWN"@,
    }) + "\n"@
}

pub open spec fn class_text(s: Seq<char>, c: CollectedClass) -> Seq<char> {
    match c.spec.kind {
        ClassKind::Value => value_class_text(s, c.spec.name@, c.methods@, c.spec.params@),
        ClassKind::Object => object_class_text(s, c),
        ClassKind::Enum => enum_text(s, c),
        ClassKind::Flags => flags_text(s, c),
    }
}

/// The first `n` lines as comments.
pub open spec fn comment_text(s: Seq<char>, lines: Seq<Seq<char>>, n: int) -> Seq<char>
    decreases n,
{
    if n <= 0 {
        s
    } else {
        comment_text(s, lines, n - 1) + "# "@ + lines[n - 1] + "\n"@
    }
}

/// A text as comments, where there is one.
pub open spec fn opt_comment(s: Seq<char>, text: Option<Seq<char>>) -> Seq<char> {
    match text {
        Some(t) => comment_text(s, lines(t), lines(t).len() as int),
        None => s,
    }
}

/// The first `n` classes, with an empty line between two of them.
pub open spec fn classes_text(s: Seq<char>, classes: Seq<CollectedClass>, n: int) -> Seq<char>
    decreases n,
{
    if n <= 0 {
        s
    } else {
        let c = classes[n - 1];
        class_text(
            opt_comment(
                gap_text(classes_text(s, classes, n - 1), n > 1),
                crate::text::opt_view(c.spec.comment),
            ),
            c,
        )
    }
}

/// A binding file.
pub open spec fn file_text(header: Option<Seq<char>>, classes: Seq<CollectedClass>) -> Seq<char> {
    let head = match header {
        Some(h) => opt_comment(Seq::empty(), Some(h)) + "\n"@,
        None => Seq::empty(),
    };
    classes_text(head, classes, classes.len() as int)
}

// ---- functions --------------------------------------------------------------------

/// A type as it is written.
pub fn render_type(t: &CuteType) -> (r: String)
    ensures
        r@ == type_text(*t),
{
    match t {
        CuteType::Named(s) => s.clone(),
        CuteType::Void => String::new(),
    }
}

/// A method by its name and the types of its parameters.
pub fn signature_key(name: &str, params: &Vec<Param>) -> (r: String)
    ensures
        r@ == signature_text(name@, params@),
{
    let mut types: Vec<String> = Vec::new();
    let mut i: usize = 0;
    while i < params.len()
        invariant
            i <= params@.len(),
            views(types@) == type_texts(params@).take(i as int),
        decreases params@.len() - i,
    {
        let t = render_type(&params[i].ty);
        proof {
            lemma_views_push(types@, t);
        }
        types.push(t);
        i += 1;
        assert(views(types@) =~= type_texts(params@).take(i as int));
    }
    assert(views(types@) =~= type_texts(params@));
    name.to_owned().concat("(").concat(joined(&types, ",").as_str()).concat(")")
}

fn param_names(overrides: &Dict<Vec<String>>, name: &str, params: &Vec<Param>) -> (r: Vec<String>)
    ensures
        views(r@) == names_for(overrides@, name@, params@),
{
    let sig = signature_key(name, params);
    match overrides.get(sig.as_str()) {
        Some(v) => crate::text::copy_strings(v),
        None => match overrides.get(name) {
            Some(v) => crate::text::copy_strings(v),
            None => {
                let r: Vec<String> = Vec::new();
                assert(views(r@) =~= Seq::<Seq<char>>::empty());
                r
            },
        },
    }
}

fn emit_params(
    out: String,
    overrides: &Dict<Vec<String>>,
    name: &str,
    params: &Vec<Param>,
) -> (r: String)
    ensures
        r@ == params_text(out@, overrides@, name@, params@),
{
    if params.len() == 0 {
        return out;
    }
    let names = param_names(overrides, name, params);
    let ghost want = param_texts(views(names@), params@);
    assert(views(names@).len() == names@.len());
    let mut parts: Vec<String> = Vec::new();
    let mut i: usize = 0;
    while i < params.len()
        invariant
            i <= params@.len(),
            views(names@).len() == names@.len(),
            want == param_texts(views(names@), params@),
            views(parts@) == want.take(i as int),
        decreases params@.len() - i,
    {
        let pname = if i < names.len() {
            names[i].clone()
        } else {
            params[i].name.clone()
        };
        let part = pname.concat(": ").concat(render_type(&params[i].ty).as_str());
        proof {
            lemma_views_push(parts@, part);
            assert(part@ == want[i as int]);
        }
        parts.push(part);
        i += 1;
        assert(views(parts@) =~= want.take(i as int));
    }
    assert(views(parts@) =~= want);
    out.concat("(").concat(joined(&parts, ", ").as_str()).concat(")")
}

/// Writes the lines of methods.
pub fn emit_methods(
    out: String,
    methods: &Vec<Method>,
    overrides: &Dict<Vec<String>>,
) -> (r: String)
    ensures
        r@ == methods_text(out@, methods@, overrides@, methods@.len() as int),
{
    let ghost start = out@;
    let mut out = out;
    let mut i: usize = 0;
    while i < methods.len()
        invariant
            i <= methods@.len(),
            out@ == methods_text(start, methods@, overrides@, i as int),
        decreases methods@.len() - i,
    {
        let m = &methods[i];
        out = out.concat("  fn ").concat(m.name.as_str());
        out = emit_params(out, overrides, m.name.as_str(), &m.params);
        match &m.return_ty {
            CuteType::Void => {},
            CuteType::Named(t) => {
                if m.lifted_bool_ok {
                    out = out.concat(" !").concat(t.as_str());
                } else {
                    out = out.concat(" ").concat(t.as_str());
                }
            },
        }
        if m.lifted_bool_ok {
            out = out.concat(" @lifted_bool_ok\n");
        } else {
            out = out.concat("\n");
        }
        i += 1;
    }
    out
}

fn emit_signals(out: String, signals: &Vec<Method>, overrides: &Dict<Vec<String>>) -> (r: String)
    ensures
        r@ == signals_text(out@, signals@, overrides@, signals@.len() as int),
{
    let ghost start = out@;
    let mut out = out;
    let mut i: usize = 0;
    while i < signals.len()
        invariant
            i <= signals@.len(),
            out@ == signals_text(start, signals@, overrides@, i as int),
        decreases signals@.len() - i,
    {
        let m = &signals[i];
        out = out.concat("  signal ").concat(m.name.as_str());
        out = emit_params(out, overrides, m.name.as_str(), &m.params);
        out = out.concat("\n");
        i += 1;
    }
    out
}

fn emit_properties(out: String, properties: &Vec<Property>) -> (r: String)
    ensures
        r@ == properties_text(out@, properties@, properties@.len() as int),
{
    let ghost start = out@;
    let mut out = out;
    let mut i: usize = 0;
    while i < properties.len()
        invariant
            i <= properties@.len(),
            out@ == properties_text(start, properties@, i as int),
        decreases properties@.len() - i,
    {
        let p = &properties[i];
        out = out.concat("  prop ").concat(p.name.as_str()).concat(" : ").concat(
            render_type(&p.ty).as_str(),
        ).concat("\n");
        i += 1;
    }
    out
}

/// Writes a value type.
pub fn emit_value_class(
    out: String,
    name: &str,
    methods: &Vec<Method>,
    overrides: &Dict<Vec<String>>,
) -> (r: String)
    ensures
        r@ == value_class_text(out@, name@, methods@, overrides@),
{
    let out = out.concat("extern value ").concat(name).concat(" {\n");
    emit_methods(out, methods, overrides).concat("}\n")
}

/// Writes a class of objects.
pub fn emit_object_class(out: String, c: &CollectedClass) -> (r: String)
    ensures
        r@ == object_class_text(out@, *c),
{
    let out = out.concat("class ").concat(c.spec.name.as_str());
    let out = match &c.spec.super_name {
        Some(b) => out.concat(" < ").concat(b.as_str()).concat(" {\n"),
        None => match &c.detected_super {
            Some(b) => out.concat(" < ").concat(b.as_str()).concat(" {\n"),
            None => out.concat(" {\n"),
        },
    };
    let mut out = emit_properties(out, &c.properties);
    if c.properties.len() > 0 && c.signals.len() > 0 {
        out = out.concat("\n");
    }
    out = emit_signals(out, &c.signals, &c.spec.params);
    if c.methods.len() > 0 && (c.properties.len() > 0 || c.signals.len() > 0) {
        out = out.concat("\n");
    }
    emit_methods(out, &c.methods, &c.spec.params).concat("}\n")
}

fn emit_variant(out: String, v: &EnumVariantInfo) -> (r: String)
    ensures
        r@ == variant_text(out@, *v),
{
    match &v.value_text {
        Some(t) => {
            let s = t.as_str();
            if has_char(s, '|') || has_char(s, '&') || has_char(s, '^') || has_char(s, '<')
                || has_char(s, '>') {
                out.concat("  # skipped ").concat(v.name.as_str()).concat(
                    ": value uses bitwise op (`",
                ).concat(s).concat("`) — Cute lacks these operators\n")
            } else {
                out.concat("  ").concat(v.name.as_str()).concat(" = ").concat(s).concat("\n")
            }
        },
        None => out.concat("  ").concat(v.name.as_str()).concat("\n"),
    }
}

fn emit_qualified(out: String, c: &CollectedClass) -> (r: String)
    ensures
        r@ == qualified_text(out@, *c),
{
    match &c.spec.cpp_namespace {
        Some(ns) => out.concat(ns.as_str()).concat("::").concat(c.spec.name.as_str()),
        None => out.concat(c.spec.name.as_str()),
    }
}

/// Writes an enum.
pub fn emit_enum_decl(out: String, c: &CollectedClass) -> (r: String)
    ensures
        r@ == enum_text(out@, *c),
{
    let mut out = emit_qualified(out.concat("extern enum "), c).concat(" {\n");
    let ghost start = out@;
    let mut i: usize = 0;
    while i < c.enum_variants.len()
        invariant
            i <= c.enum_variants@.len(),
            out@ == variants_text(start, c.enum_variants@, i as int),
        decreases c.enum_variants@.len() - i,
    {
        out = emit_variant(out, &c.enum_variants[i]);
        i += 1;
    }
    out.concat("}\n")
}

/// Writes a flags type.
pub fn emit_flags_decl(out: String, c: &CollectedClass) -> (r: String)
    ensures
        r@ == flags_text(out@, *c),
{
    let out = emit_qualified(out.concat("extern flags "), c).concat(" of ");
    let out = match &c.spec.flags_of {
        Some(x) => out.concat(x.as_str()),
        None => out.concat("UNKNOWN"),
    };
    out.concat("\n")
}

fn emit_comment(out: String, text: &str) -> (r: String)
    ensures
        r@ == opt_comment(out@, Some(text@)),
{
    let ghost start = out@;
    let rows = text_lines(text);
    assert(views(rows@).len() == rows@.len());
    let mut out = out;
    let mut i: usize = 0;
    while i < rows.len()
        invariant
            i <= rows@.len(),
            out@ == comment_text(start, views(rows@), i as int),
        decreases rows@.len() - i,
    {
        out = out.concat("# ").concat(rows[i].as_str()).concat("\n");
        i += 1;
    }
    out
}

/// A binding file: the header as comments, then the classes in their order.
pub fn emit(file_header: Option<&str>, classes: &Vec<CollectedClass>) -> (r: String)
    ensures
        r@ == file_text(
            match file_header {
                Some(h) => Some(h@),
                None => None,
            },
            classes@,
        ),
{
    let mut out = match file_header {
        Some(h) => emit_comment(String::new(), h).concat("\n"),
        None => String::new(),
    };
    let ghost start = out@;
    let mut i: usize = 0;
    while i < classes.len()
        invariant
            i <= classes@.len(),
            out@ == classes_text(start, classes@, i as int),
        decreases classes@.len() - i,
    {
        let c = &classes[i];
        if i > 0 {
            out = out.concat("\n");
        }
        match &c.spec.comment {
            Some(t) => {
                out = emit_comment(out, t.as_str());
            },
            None => {},
        }
        out = match c.spec.kind {
            ClassKind::Value => emit_value_class(
                out,
                c.spec.name.as_str(),
                &c.methods,
                &c.spec.params,
            ),
            ClassKind::Object => emit_object_class(out, c),
            ClassKind::Enum => emit_enum_decl(out, c),
            ClassKind::Flags => emit_flags_decl(out, c),
        };
        i += 1;
    }
    out
}

// ---- laws ---------------------------------------------------------------------------
//
// What is written before a text stands before it: each text is put behind what
// was written so far.

proof fn lemma_params_behind(
    x: Seq<char>,
    s: Seq<char>,
    overrides: Map<Seq<char>, Vec<String>>,
    name: Seq<char>,
    params: Seq<Param>,
)
    ensures
        params_text(x + s, overrides, name, params) == x + params_text(s, overrides, name, params),
{
    let list = join(param_texts(names_for(overrides, name, params), params), ", "@);
    assert(x + s + "("@ + list + ")"@ =~= x + (s + "("@ + list + ")"@));
}

proof fn lemma_return_behind(
    x: Seq<char>,
    s: Seq<char>,
    ty: CuteType,
    lifted: bool,
)
    ensures
        return_text(x + s, ty, lifted) == x + return_text(s, ty, lifted),
{
    let end = if lifted {
        " @lifted_bool_ok\n"@
    } else {
        "\n"@
    };
    match ty {
        CuteType::Void => {
            assert(x + s + end =~= x + (s + end));
        },
        CuteType::Named(t) => {
            let mark = if lifted {
                " !"@
            } else {
                " "@
            };
            assert(x + s + mark + t@ + end =~= x + (s + mark + t@ + end));
        },
    }
}

proof fn lemma_method_behind(
    x: Seq<char>,
    s: Seq<char>,
    m: Method,
    overrides: Map<Seq<char>, Vec<String>>,
)
    ensures
        method_text(x + s, m, overrides) == x + method_text(s, m, overrides),
{
    let head = s + "  fn "@ + m.name@;
    assert(x + s + "  fn "@ + m.name@ =~= x + head);
    lemma_params_behind(x, head, overrides, m.name@, m.params@);
    lemma_return_behind(
        x,
        params_text(head, overrides, m.name@, m.params@),
        m.return_ty,
        m.lifted_bool_ok,
    );
}

proof fn lemma_methods_behind(
    x: Seq<char>,
    s: Seq<char>,
    methods: Seq<Method>,
    overrides: Map<Seq<char>, Vec<String>>,
    n: int,
)
    ensures
        methods_text(x + s, methods, overrides, n) == x + methods_text(s, methods, overrides, n),
    decreases n,
{
    if n > 0 {
        lemma_methods_behind(x, s, methods, overrides, n - 1);
        lemma_method_behind(
            x,
            methods_text(s, methods, overrides, n - 1),
            methods[n - 1],
            overrides,
        );
    }
}

proof fn lemma_signals_behind(
    x: Seq<char>,
    s: Seq<char>,
    signals: Seq<Method>,
    overrides: Map<Seq<char>, Vec<String>>,
    n: int,
)
    ensures
        signals_text(x + s, signals, overrides, n) == x + signals_text(s, signals, overrides, n),
    decreases n,
{
    if n > 0 {
        lemma_signals_behind(x, s, signals, overrides, n - 1);
        let m = signals[n - 1];
        let before = signals_text(s, signals, overrides, n - 1);
        let head = before + "  signal "@ + m.name@;
        assert(x + before + "  signal "@ + m.name@ =~= x + head);
        lemma_params_behind(x, head, overrides, m.name@, m.params@);
        let line = params_text(head, overrides, m.name@, m.params@);
        assert(x + line + "\n"@ =~= x + (line + "\n"@));
    }
}

proof fn lemma_properties_behind(
    x: Seq<char>,
    s: Seq<char>,
    properties: Seq<Property>,
    n: int,
)
    ensures
        properties_text(x + s, properties, n) == x + properties_text(s, properties, n),
    decreases n,
{
    if n > 0 {
        lemma_properties_behind(x, s, properties, n - 1);
        let before = properties_text(s, properties, n - 1);
        let name = properties[n - 1].name@;
        let ty = type_text(properties[n - 1].ty);
        assert(x + before + "  prop "@ + name + " : "@ + ty + "\n"@ =~= x + (before + "  prop "@
            + name + " : "@ + ty + "\n"@));
    }
}

proof fn lemma_gap_behind(
    x: Seq<char>,
    s: Seq<char>,
    on: bool,
)
    ensures
        gap_text(x + s, on) == x + gap_text(s, on),
{
    assert(x + s + "\n"@ =~= x + (s + "\n"@));
}

proof fn lemma_value_class_behind(
    x: Seq<char>,
    s: Seq<char>,
    name: Seq<char>,
    methods: Seq<Method>,
    overrides: Map<Seq<char>, Vec<String>>,
)
    ensures
        value_class_text(x + s, name, methods, overrides) == x + value_class_text(s, name, methods, overrides),
{
    let head = s + "extern value "@ + name + " {\n"@;
    assert(x + s + "extern value "@ + name + " {\n"@ =~= x + head);
    lemma_methods_behind(x, head, methods, overrides, methods.len() as int);
    let body = methods_text(head, methods, overrides, methods.len() as int);
    assert(x + body + "}\n"@ =~= x + (body + "}\n"@));
}

proof fn lemma_object_head_behind(
    x: Seq<char>,
    s: Seq<char>,
    c: CollectedClass,
)
    ensures
        object_head(x + s, c) == x + object_head(s, c),
{
    match base_class(c) {
        Some(b) => {
            assert(x + s + "class "@ + c.spec.name@ + " < "@ + b + " {\n"@ =~= x + (s + "class "@
                + c.spec.name@ + " < "@ + b + " {\n"@));
        },
        None => {
            assert(x + s + "class "@ + c.spec.name@ + " {\n"@ =~= x + (s + "class "@ + c.spec.name@
                + " {\n"@));
        },
    }
}

proof fn lemma_object_class_behind(
    x: Seq<char>,
    s: Seq<char>,
    c: CollectedClass,
)
    ensures
        object_class_text(x + s, c) == x + object_class_text(s, c),
{
    let over = c.spec.params@;
    let props = c.properties@;
    let sigs = c.signals@;
    let n = c.methods@.len() as int;
    lemma_object_head_behind(x, s, c);
    let s0 = object_head(s, c);
    lemma_properties_behind(x, s0, props, props.len() as int);
    let s1 = properties_text(s0, props, props.len() as int);
    let on1 = props.len() > 0 && sigs.len() > 0;
    lemma_gap_behind(x, s1, on1);
    let s2 = gap_text(s1, on1);
    lemma_signals_behind(x, s2, sigs, over, sigs.len() as int);
    let s3 = signals_text(s2, sigs, over, sigs.len() as int);
    let on2 = n > 0 && (props.len() > 0 || sigs.len() > 0);
    lemma_gap_behind(x, s3, on2);
    let s4 = gap_text(s3, on2);
    lemma_methods_behind(x, s4, c.methods@, over, n);
    let s5 = methods_text(s4, c.methods@, over, n);
    assert(x + s5 + "}\n"@ =~= x + (s5 + "}\n"@));
}

proof fn lemma_variant_behind(
    x: Seq<char>,
    s: Seq<char>,
    v: EnumVariantInfo,
)
    ensures
        variant_text(x + s, v) == x + variant_text(s, v),
{
    match v.value_text {
        Some(t) => {
            if uses_bit_operator(t@) {
                let mid = ": value uses bitwise op (`"@;
                let end = "`) — Cute lacks these operators\n"@;
                assert(x + s + "  # skipped "@ + v.name@ + mid + t@ + end =~= x + (s
                    + "  # skipped "@ + v.name@ + mid + t@ + end));
            } else {
                assert(x + s + "  "@ + v.name@ + " = "@ + t@ + "\n"@ =~= x + (s + "  "@ + v.name@
                    + " = "@ + t@ + "\n"@));
            }
        },
        None => {
            assert(x + s + "  "@ + v.name@ + "\n"@ =~= x + (s + "  "@ + v.name@ + "\n"@));
        },
    }
}

proof fn lemma_variants_behind(
    x: Seq<char>,
    s: Seq<char>,
    v: Seq<EnumVariantInfo>,
    n: int,
)
    ensures
        variants_text(x + s, v, n) == x + variants_text(s, v, n),
    decreases n,
{
    if n > 0 {
        lemma_variants_behind(x, s, v, n - 1);
        lemma_variant_behind(x, variants_text(s, v, n - 1), v[n - 1]);
    }
}

proof fn lemma_qualified_behind(
    x: Seq<char>,
    s: Seq<char>,
    c: CollectedClass,
)
    ensures
        qualified_text(x + s, c) == x + qualified_text(s, c),
{
    match c.spec.cpp_namespace {
        Some(ns) => {
            assert(x + s + ns@ + "::"@ + c.spec.name@ =~= x + (s + ns@ + "::"@ + c.spec.name@));
        },
        None => {
            assert(x + s + c.spec.name@ =~= x + (s + c.spec.name@));
        },
    }
}

proof fn lemma_enum_behind(
    x: Seq<char>,
    s: Seq<char>,
    c: CollectedClass,
)
    ensures
        enum_text(x + s, c) == x + enum_text(s, c),
{
    let v = c.enum_variants@;
    assert(x + s + "extern enum "@ =~= x + (s + "extern enum "@));
    lemma_qualified_behind(x, s + "extern enum "@, c);
    let name = qualified_text(s + "extern enum "@, c);
    assert(x + name + " {\n"@ =~= x + (name + " {\n"@));
    lemma_variants_behind(x, name + " {\n"@, v, v.len() as int);
    let body = variants_text(name + " {\n"@, v, v.len() as int);
    assert(x + body + "}\n"@ =~= x + (body + "}\n"@));
}

proof fn lemma_flags_behind(
    x: Seq<char>,
    s: Seq<char>,
    c: CollectedClass,
)
    ensures
        flags_text(x + s, c) == x + flags_text(s, c),
{
    assert(x + s + "extern flags "@ =~= x + (s + "extern flags "@));
    lemma_qualified_behind(x, s + "extern flags "@, c);
    let name = qualified_text(s + "extern flags "@, c);
    let of = match c.spec.flags_of {
        Some(y) => y@,
        None => "UNKNOWN"@,
    };
    assert(x + name + " of "@ + of + "\n"@ =~= x + (name + " of "@ + of + "\n"@));
}

proof fn lemma_class_behind(
    x: Seq<char>,
    s: Seq<char>,
    c: CollectedClass,
)
    ensures
        class_text(x + s, c) == x + class_text(s, c),
{
    match c.spec.kind {
        ClassKind::Value => lemma_value_class_behind(
            x,
            s,
            c.spec.name@,
            c.methods@,
            c.spec.params@,
        ),
        ClassKind::Object => lemma_object_class_behind(x, s, c),
        ClassKind::Enum => lemma_enum_behind(x, s, c),
        ClassKind::Flags => lemma_flags_behind(x, s, c),
    }
}

proof fn lemma_comment_behind(
    x: Seq<char>,
    s: Seq<char>,
    rows: Seq<Seq<char>>,
    n: int,
)
    ensures
        comment_text(x + s, rows, n) == x + comment_text(s, rows, n),
    decreases n,
{
    if n > 0 {
        lemma_comment_behind(x, s, rows, n - 1);
        let before = comment_text(s, rows, n - 1);
        assert(x + before + "# "@ + rows[n - 1] + "\n"@ =~= x + (before + "# "@ + rows[n - 1]
            + "\n"@));
    }
}

proof fn lemma_declared_behind(
    x: Seq<char>,
    s: Seq<char>,
    c: CollectedClass,
)
    ensures
        class_text(opt_comment(x + s, crate::text::opt_view(c.spec.comment)), c) == x + class_text(
            opt_comment(s, crate::text::opt_view(c.spec.comment)),
            c,
        ),
{
    let comment = crate::text::opt_view(c.spec.comment);
    match comment {
        Some(t) => lemma_comment_behind(x, s, lines(t), lines(t).len() as int),
        None => {},
    }
    lemma_class_behind(x, opt_comment(s, comment), c);
}

proof fn lemma_classes_behind(
    x: Seq<char>,
    s: Seq<char>,
    classes: Seq<CollectedClass>,
    n: int,
)
    ensures
        classes_text(x + s, classes, n) == x + classes_text(s, classes, n),
    decreases n,
{
    if n > 0 {
        lemma_classes_behind(x, s, classes, n - 1);
        let before = classes_text(s, classes, n - 1);
        lemma_gap_behind(x, before, n > 1);
        lemma_declared_behind(x, gap_text(before, n > 1), classes[n - 1]);
    }
}

/// The classes of the first list do not depend on what follows it.
proof fn lemma_classes_prefix(
    s: Seq<char>,
    a: Seq<CollectedClass>,
    b: Seq<CollectedClass>,
    n: int,
)
    requires
        n <= a.len(),
    ensures
        classes_text(s, a + b, n) == classes_text(s, a, n),
    decreases n,
{
    if n > 0 {
        lemma_classes_prefix(s, a, b, n - 1);
        assert((a + b)[n - 1] == a[n - 1]);
    }
}

/// The classes of the second list stand behind those of the first and an empty
/// line.
proof fn lemma_classes_after(a: Seq<CollectedClass>, b: Seq<CollectedClass>, n: int)
    requires
        a.len() > 0,
        0 < n <= b.len(),
    ensures
        classes_text(Seq::empty(), a + b, a.len() + n) == classes_text(
            Seq::empty(),
            a,
            a.len() as int,
        ) + "\n"@ + classes_text(Seq::empty(), b, n),
    decreases n,
{
    let none = Seq::<char>::empty();
    let k = a.len() as int;
    let c = b[n - 1];
    assert((a + b)[k + n - 1] == c);
    let first = classes_text(none, a, k) + "\n"@;
    if n == 1 {
        lemma_classes_prefix(none, a, b, k);
        assert(classes_text(none, b, 0) == none);
        assert(first + none =~= first);
        lemma_declared_behind(first, none, c);
    } else {
        lemma_classes_after(a, b, n - 1);
        let before = classes_text(none, b, n - 1);
        lemma_gap_behind(first, before, true);
        lemma_declared_behind(first, gap_text(before, true), c);
    }
}

/// The classes of two lists are written as each list by itself, with an empty
/// line between the two.
pub proof fn law_files_join(a: Seq<CollectedClass>, b: Seq<CollectedClass>)
    requires
        a.len() > 0,
        b.len() > 0,
    ensures
        file_text(None, a + b) == file_text(None, a) + "\n"@ + file_text(None, b),
{
    lemma_classes_after(a, b, b.len() as int);
}

/// A header stands before the classes and changes nothing in them.
pub proof fn law_header_stands_before(header: Seq<char>, classes: Seq<CollectedClass>)
    ensures
        file_text(Some(header), classes) == file_text(Some(header), Seq::empty()) + file_text(
            None,
            classes,
        ),
{
    let head = file_text(Some(header), Seq::empty());
    assert(head + Seq::<char>::empty() =~= head);
    lemma_classes_behind(head, Seq::empty(), classes, classes.len() as int);
}

} // verus!
