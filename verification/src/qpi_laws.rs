//! What holds of binding files: the lines that stand in them, told from what
//! was collected.

use crate::meta_laws::{
    extends, lemma_ends_contains, lemma_extends_add, lemma_extends_contains, lemma_extends_trans,
};
use crate::qpi_emit::{
    class_text, gap_text, method_text, methods_text, names_for, object_class_text, object_head,
    params_text, param_texts, properties_text, return_text, signals_text, signature_text, type_text,
    variant_text, variants_text,
};
use crate::qpi_types::{
    ClassKind, CollectedClass, CuteType, EnumVariantInfo, Method, Param, Property,
};
use crate::text::{contains, join};
use vstd::prelude::*;

verus! {

// ---- lines -------------------------------------------------------------------------

/// A parameter list in brackets; nothing where there are no parameters.
pub open spec fn bracketed(list: Seq<Seq<char>>) -> Seq<char> {
    if list.len() == 0 {
        Seq::empty()
    } else {
        "("@ + join(list, ", "@) + ")"@
    }
}

/// The end of the line of a method: a space and its type, which has a `!` in
/// front and the mark of the flag behind where the method can fail.
pub open spec fn line_end(ty: CuteType, can_fail: bool) -> Seq<char> {
    let shown = match ty {
        CuteType::Named(t) => if can_fail {
            " !"@ + t@
        } else {
            " "@ + t@
        },
        CuteType::Void => Seq::empty(),
    };
    if can_fail {
        shown + " @lifted_bool_ok\n"@
    } else {
        shown + "\n"@
    }
}

/// The line of a method.
pub open spec fn method_line(m: Method, over: Map<Seq<char>, Vec<String>>) -> Seq<char> {
    "  fn "@ + m.name@ + bracketed(shown_params(m, over)) + line_end(m.return_ty, m.lifted_bool_ok)
}

/// The line of a signal.
pub open spec fn signal_line(m: Method, over: Map<Seq<char>, Vec<String>>) -> Seq<char> {
    "  signal "@ + m.name@ + bracketed(shown_params(m, over)) + "\n"@
}

/// The line of a property.
pub open spec fn property_line(p: Property) -> Seq<char> {
    "  prop "@ + p.name@ + " : "@ + type_text(p.ty) + "\n"@
}

/// The parameters of a method as they are shown.
pub open spec fn shown_params(m: Method, over: Map<Seq<char>, Vec<String>>) -> Seq<Seq<char>> {
    param_texts(names_for(over, m.name@, m.params@), m.params@)
}

proof fn lemma_params(s: Seq<char>, m: Method, over: Map<Seq<char>, Vec<String>>)
    ensures
        params_text(s, over, m.name@, m.params@) == s + bracketed(shown_params(m, over)),
{
    let list = shown_params(m, over);
    assert(list.len() == m.params@.len());
    if m.params@.len() == 0 {
        assert(s + Seq::<char>::empty() =~= s);
    } else {
        assert(s + "("@ + join(list, ", "@) + ")"@ =~= s + ("("@ + join(list, ", "@) + ")"@));
    }
}

proof fn lemma_return(s: Seq<char>, ty: CuteType, can_fail: bool)
    ensures
        return_text(s, ty, can_fail) == s + line_end(ty, can_fail),
{
    match ty {
        CuteType::Named(t) => {
            assert(s + " !"@ + t@ + " @lifted_bool_ok\n"@ =~= s + (" !"@ + t@
                + " @lifted_bool_ok\n"@));
            assert(s + " "@ + t@ + "\n"@ =~= s + (" "@ + t@ + "\n"@));
        },
        CuteType::Void => {
            assert(Seq::<char>::empty() + " @lifted_bool_ok\n"@ =~= " @lifted_bool_ok\n"@);
            assert(Seq::<char>::empty() + "\n"@ =~= "\n"@);
        },
    }
}

proof fn lemma_method(s: Seq<char>, m: Method, over: Map<Seq<char>, Vec<String>>)
    ensures
        method_text(s, m, over) == s + method_line(m, over),
{
    let head = s + "  fn "@ + m.name@;
    lemma_params(head, m, over);
    lemma_return(head + bracketed(shown_params(m, over)), m.return_ty, m.lifted_bool_ok);
    assert(s + "  fn "@ + m.name@ + bracketed(shown_params(m, over)) + line_end(
        m.return_ty,
        m.lifted_bool_ok,
    ) =~= s + method_line(m, over));
}

// ---- laws --------------------------------------------------------------------------

/// The names that are set for a method replace those of its first parameters,
/// and every parameter shows its own type. Names for the signature of a method
/// come before names for all methods of its name.
pub proof fn law_set_names_replace_names(m: Method, over: Map<Seq<char>, Vec<String>>, i: int)
    requires
        0 <= i < m.params@.len(),
    ensures
        shown_params(m, over).len() == m.params@.len(),
        ({
            let sig = signature_text(m.name@, m.params@);
            let p = m.params@[i];
            let shown = |name: Seq<char>| name + ": "@ + type_text(p.ty);
            if over.contains_key(sig) && i < over[sig]@.len() {
                shown_params(m, over)[i] == shown(over[sig]@[i]@)
            } else if !over.contains_key(sig) && over.contains_key(m.name@) && i
                < over[m.name@]@.len() {
                shown_params(m, over)[i] == shown(over[m.name@]@[i]@)
            } else {
                shown_params(m, over)[i] == shown(p.name@)
            }
        }),
{
}

/// A signature shows the name of the method and the type of each parameter.
pub proof fn law_signatures_show_types(name: Seq<char>, params: Seq<Param>)
    ensures
        signature_text(name, params) == name + "("@ + join(
            params.map_values(|p: Param| type_text(p.ty)),
            ","@,
        ) + ")"@,
{
    assert(crate::qpi_emit::type_texts(params) =~= params.map_values(
        |p: Param| type_text(p.ty),
    ));
}

proof fn lemma_methods_extend(
    s: Seq<char>,
    v: Seq<Method>,
    over: Map<Seq<char>, Vec<String>>,
    n: int,
)
    requires
        0 <= n <= v.len(),
    ensures
        extends(s, methods_text(s, v, over, n)),
        forall|i: int|
            0 <= i < n ==> contains(methods_text(s, v, over, n), #[trigger] method_line(v[i], over)),
    decreases n,
{
    if n > 0 {
        lemma_methods_extend(s, v, over, n - 1);
        let before = methods_text(s, v, over, n - 1);
        let now = methods_text(s, v, over, n);
        let line = method_line(v[n - 1], over);
        lemma_method(before, v[n - 1], over);
        lemma_extends_add(before, line);
        lemma_ends_contains(before, line);
        lemma_extends_trans(s, before, now);
        assert forall|i: int| 0 <= i < n implies contains(now, #[trigger] method_line(v[i], over)) by {
            if i < n - 1 {
                lemma_extends_contains(before, now, method_line(v[i], over));
            }
        }
    } else {
        assert(s.take(s.len() as int) =~= s);
    }
}

proof fn lemma_signals_extend(
    s: Seq<char>,
    v: Seq<Method>,
    over: Map<Seq<char>, Vec<String>>,
    n: int,
)
    requires
        0 <= n <= v.len(),
    ensures
        extends(s, signals_text(s, v, over, n)),
        forall|i: int|
            0 <= i < n ==> contains(signals_text(s, v, over, n), #[trigger] signal_line(v[i], over)),
    decreases n,
{
    if n > 0 {
        lemma_signals_extend(s, v, over, n - 1);
        let before = signals_text(s, v, over, n - 1);
        let now = signals_text(s, v, over, n);
        let m = v[n - 1];
        let line = signal_line(m, over);
        lemma_params(before + "  signal "@ + m.name@, m, over);
        assert(before + "  signal "@ + m.name@ + bracketed(shown_params(m, over)) + "\n"@ =~= before
            + line);
        lemma_extends_add(before, line);
        lemma_ends_contains(before, line);
        lemma_extends_trans(s, before, now);
        assert forall|i: int| 0 <= i < n implies contains(now, #[trigger] signal_line(v[i], over)) by {
            if i < n - 1 {
                lemma_extends_contains(before, now, signal_line(v[i], over));
            }
        }
    } else {
        assert(s.take(s.len() as int) =~= s);
    }
}

proof fn lemma_properties_extend(s: Seq<char>, v: Seq<Property>, n: int)
    requires
        0 <= n <= v.len(),
    ensures
        extends(s, properties_text(s, v, n)),
        forall|i: int|
            0 <= i < n ==> contains(properties_text(s, v, n), #[trigger] property_line(v[i])),
    decreases n,
{
    if n > 0 {
        lemma_properties_extend(s, v, n - 1);
        let before = properties_text(s, v, n - 1);
        let now = properties_text(s, v, n);
        let line = property_line(v[n - 1]);
        assert(now =~= before + line);
        lemma_extends_add(before, line);
        lemma_ends_contains(before, line);
        lemma_extends_trans(s, before, now);
        assert forall|i: int| 0 <= i < n implies contains(now, #[trigger] property_line(v[i])) by {
            if i < n - 1 {
                lemma_extends_contains(before, now, property_line(v[i]));
            }
        }
    } else {
        assert(s.take(s.len() as int) =~= s);
    }
}

/// Each method of a value type has its line.
pub proof fn law_value_types_show_their_methods(s: Seq<char>, c: CollectedClass, i: int)
    requires
        c.spec.kind == ClassKind::Value,
        0 <= i < c.methods@.len(),
    ensures
        extends(s + "extern value "@ + c.spec.name@ + " {\n"@, class_text(s, c)),
        contains(class_text(s, c), method_line(c.methods@[i], c.spec.params@)),
{
    let over = c.spec.params@;
    let head = s + "extern value "@ + c.spec.name@ + " {\n"@;
    let body = methods_text(head, c.methods@, over, c.methods@.len() as int);
    lemma_methods_extend(head, c.methods@, over, c.methods@.len() as int);
    lemma_extends_add(body, "}\n"@);
    lemma_extends_trans(head, body, class_text(s, c));
    lemma_extends_contains(body, class_text(s, c), method_line(c.methods@[i], over));
}

/// The name of the base class of an object class: the one that is asked for,
/// else the one that was found.
pub open spec fn is_base(c: CollectedClass, base: Seq<char>) -> bool {
    match c.spec.super_name {
        Some(asked) => asked@ == base,
        None => c.detected_super matches Some(found) && found@ == base,
    }
}

/// An object class names its base class, where it has one.
pub proof fn law_object_classes_name_their_base(s: Seq<char>, c: CollectedClass, base: Seq<char>)
    requires
        c.spec.kind == ClassKind::Object,
    ensures
        is_base(c, base) ==> extends(
            s + "class "@ + c.spec.name@ + " < "@ + base + " {\n"@,
            class_text(s, c),
        ),
        c.spec.super_name is None && c.detected_super is None ==> extends(
            s + "class "@ + c.spec.name@ + " {\n"@,
            class_text(s, c),
        ),
{
    lemma_object_parts(s, c);
}

proof fn lemma_gap(s: Seq<char>, on: bool)
    ensures
        extends(s, gap_text(s, on)),
{
    if on {
        lemma_extends_add(s, "\n"@);
    } else {
        assert(s.take(s.len() as int) =~= s);
    }
}

proof fn lemma_object_parts(s: Seq<char>, c: CollectedClass)
    ensures
        extends(object_head(s, c), object_class_text(s, c)),
        forall|i: int|
            0 <= i < c.properties@.len() ==> contains(
                object_class_text(s, c),
                #[trigger] property_line(c.properties@[i]),
            ),
        forall|i: int|
            0 <= i < c.signals@.len() ==> contains(
                object_class_text(s, c),
                #[trigger] signal_line(c.signals@[i], c.spec.params@),
            ),
        forall|i: int|
            0 <= i < c.methods@.len() ==> contains(
                object_class_text(s, c),
                #[trigger] method_line(c.methods@[i], c.spec.params@),
            ),
{
    let over = c.spec.params@;
    let props = c.properties@;
    let sigs = c.signals@;
    let text = object_class_text(s, c);
    let h = object_head(s, c);
    let p = properties_text(h, props, props.len() as int);
    let s1 = gap_text(p, props.len() > 0 && sigs.len() > 0);
    let g = signals_text(s1, sigs, over, sigs.len() as int);
    let s2 = gap_text(g, c.methods@.len() > 0 && (props.len() > 0 || sigs.len() > 0));
    let m = methods_text(s2, c.methods@, over, c.methods@.len() as int);
    lemma_properties_extend(h, props, props.len() as int);
    lemma_gap(p, props.len() > 0 && sigs.len() > 0);
    lemma_signals_extend(s1, sigs, over, sigs.len() as int);
    lemma_gap(g, c.methods@.len() > 0 && (props.len() > 0 || sigs.len() > 0));
    lemma_methods_extend(s2, c.methods@, over, c.methods@.len() as int);
    lemma_extends_add(m, "}\n"@);
    lemma_extends_trans(s2, m, text);
    lemma_extends_trans(g, s2, text);
    lemma_extends_trans(s1, g, text);
    lemma_extends_trans(p, s1, text);
    lemma_extends_trans(h, p, text);
    assert forall|i: int| 0 <= i < props.len() implies contains(
        text,
        #[trigger] property_line(props[i]),
    ) by {
        lemma_extends_contains(p, text, property_line(props[i]));
    }
    assert forall|i: int| 0 <= i < sigs.len() implies contains(
        text,
        #[trigger] signal_line(sigs[i], over),
    ) by {
        lemma_extends_contains(g, text, signal_line(sigs[i], over));
    }
    assert forall|i: int| 0 <= i < c.methods@.len() implies contains(
        text,
        #[trigger] method_line(c.methods@[i], over),
    ) by {
        lemma_extends_contains(m, text, method_line(c.methods@[i], over));
    }
}

/// Each property, signal and method of an object class has its line.
pub proof fn law_object_classes_show_their_members(s: Seq<char>, c: CollectedClass)
    requires
        c.spec.kind == ClassKind::Object,
    ensures
        forall|i: int|
            0 <= i < c.properties@.len() ==> contains(
                class_text(s, c),
                #[trigger] property_line(c.properties@[i]),
            ),
        forall|i: int|
            0 <= i < c.signals@.len() ==> contains(
                class_text(s, c),
                #[trigger] signal_line(c.signals@[i], c.spec.params@),
            ),
        forall|i: int|
            0 <= i < c.methods@.len() ==> contains(
                class_text(s, c),
                #[trigger] method_line(c.methods@[i], c.spec.params@),
            ),
{
    lemma_object_parts(s, c);
}

/// The line of an enum's variant: with its value, where it has one. A value
/// that is computed from bits is only told of.
pub open spec fn variant_line(v: EnumVariantInfo) -> Seq<char> {
    match v.value_text {
        None => "  "@ + v.name@ + "\n"@,
        Some(t) => if exists|i: int|
            0 <= i < t@.len() && (#[trigger] t@[i] == '|' || t@[i] == '&' || t@[i] == '^' || t@[i]
                == '<' || t@[i] == '>') {
            "  # skipped "@ + v.name@ + ": value uses bitwise op (`"@ + t@
                + "`) — Cute lacks these operators\n"@
        } else {
            "  "@ + v.name@ + " = "@ + t@ + "\n"@
        },
    }
}

proof fn lemma_variant(s: Seq<char>, v: EnumVariantInfo)
    ensures
        variant_text(s, v) == s + variant_line(v),
{
    match v.value_text {
        None => {
            assert(s + "  "@ + v.name@ + "\n"@ =~= s + variant_line(v));
        },
        Some(t) => {
            if crate::qpi_emit::uses_bit_operator(t@) {
                let i = choose|i: int|
                    0 <= i < t@.len() && (t@[i] == '|' || t@[i] == '&' || t@[i] == '^' || t@[i]
                        == '<' || t@[i] == '>');
                assert(t@[i] == '|' || t@[i] == '&' || t@[i] == '^' || t@[i] == '<' || t@[i]
                    == '>');
                assert(s + "  # skipped "@ + v.name@ + ": value uses bitwise op (`"@ + t@
                    + "`) — Cute lacks these operators\n"@ =~= s + variant_line(v));
            } else {
                assert(s + "  "@ + v.name@ + " = "@ + t@ + "\n"@ =~= s + variant_line(v));
            }
        },
    }
}

proof fn lemma_variants_extend(s: Seq<char>, v: Seq<EnumVariantInfo>, n: int)
    requires
        0 <= n <= v.len(),
    ensures
        extends(s, variants_text(s, v, n)),
        forall|i: int| 0 <= i < n ==> contains(variants_text(s, v, n), #[trigger] variant_line(v[i])),
    decreases n,
{
    if n > 0 {
        lemma_variants_extend(s, v, n - 1);
        let before = variants_text(s, v, n - 1);
        let now = variants_text(s, v, n);
        let line = variant_line(v[n - 1]);
        lemma_variant(before, v[n - 1]);
        lemma_extends_add(before, line);
        lemma_ends_contains(before, line);
        lemma_extends_trans(s, before, now);
        assert forall|i: int| 0 <= i < n implies contains(now, #[trigger] variant_line(v[i])) by {
            if i < n - 1 {
                lemma_extends_contains(before, now, variant_line(v[i]));
            }
        }
    } else {
        assert(s.take(s.len() as int) =~= s);
    }
}

/// The name of a class, behind its namespace where it has one.
pub open spec fn full_name(c: CollectedClass) -> Seq<char> {
    match c.spec.cpp_namespace {
        Some(ns) => ns@ + "::"@ + c.spec.name@,
        None => c.spec.name@,
    }
}

/// An enum is written under its full name, and each variant has its line.
pub proof fn law_enums_show_their_variants(s: Seq<char>, c: CollectedClass, i: int)
    requires
        c.spec.kind == ClassKind::Enum,
        0 <= i < c.enum_variants@.len(),
    ensures
        extends(s + "extern enum "@ + full_name(c) + " {\n"@, class_text(s, c)),
        contains(class_text(s, c), variant_line(c.enum_variants@[i])),
{
    let v = c.enum_variants@;
    let head = s + "extern enum "@ + full_name(c) + " {\n"@;
    assert(crate::qpi_emit::qualified_text(s + "extern enum "@, c) =~= s + "extern enum "@
        + full_name(c));
    let body = variants_text(head, v, v.len() as int);
    lemma_variants_extend(head, v, v.len() as int);
    lemma_extends_add(body, "}\n"@);
    lemma_extends_trans(head, body, class_text(s, c));
    lemma_extends_contains(body, class_text(s, c), variant_line(v[i]));
}

/// A flags type names the enum that it is over.
pub proof fn law_flags_name_their_enum(s: Seq<char>, c: CollectedClass)
    requires
        c.spec.kind == ClassKind::Flags,
    ensures
        c.spec.flags_of matches Some(e) ==> class_text(s, c) == s + ("extern flags "@ + full_name(c)
            + " of "@ + e@ + "\n"@),
        c.spec.flags_of is None ==> class_text(s, c) == s + ("extern flags "@ + full_name(c)
            + " of "@ + "UNKNOWN"@ + "\n"@),
{
    assert(crate::qpi_emit::qualified_text(s + "extern flags "@, c) =~= s + "extern flags "@
        + full_name(c));
    match c.spec.flags_of {
        Some(e) => {
            assert(s + "extern flags "@ + full_name(c) + " of "@ + e@ + "\n"@ =~= s + (
            "extern flags "@ + full_name(c) + " of "@ + e@ + "\n"@));
        },
        None => {
            assert(s + "extern flags "@ + full_name(c) + " of "@ + "UNKNOWN"@ + "\n"@ =~= s + (
            "extern flags "@ + full_name(c) + " of "@ + "UNKNOWN"@ + "\n"@));
        },
    }
}

} // verus!
