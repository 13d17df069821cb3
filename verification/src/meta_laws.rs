//! Laws of meta-object code.
//!
//! Every table and every switch is stated as a whole: its head, one row for
//! each thing that it is about, and its end.

use crate::meta::{
    any_bindable, any_writable, arg_names, bindable_cases_text, bindable_surface, c_escaped,
    data_text, emit_data_head_text, emit_data_tail_text, emit_static_object_text, emit_tag_text,
    entry_params, index_of_signal_text, index_of_signals_text, instance_count, invoke_case_text,
    invoke_text, metacall_head_text, metacall_methods_text, metacall_properties_text, metacall_text,
    method_cases_text, method_entries_text, method_entry_text, method_total, notify_argument,
    param_addresses, param_cells, param_decls, param_types, property_access_text,
    property_entries_text, property_entry_text, property_flags, read_cases_text, return_metatype,
    signal_bodies_text, signal_body_text, signal_cases_text, signal_entries_text, signal_entry_text,
    signal_head_text, source_text, static_metacall_head_text, string_table, switch_end, table_index,
    table_lines_text, tag_name, unpack_text, write_cases_text, ClassInfo, MethodInfo, ParamInfo,
    PropInfo, SignalInfo,
};
use crate::text::{contains, decimal, hex, join, matches_at};
use vstd::prelude::*;
use vstd::string::*;

verus! {

// ---- pieces of text ---------------------------------------------------------------

/// `b` starts with `a`.
pub open spec fn extends(a: Seq<char>, b: Seq<char>) -> bool {
    a.len() <= b.len() && b.take(a.len() as int) == a
}

pub(crate) proof fn lemma_extends_contains(a: Seq<char>, b: Seq<char>, q: Seq<char>)
    requires
        extends(a, b),
        contains(a, q),
    ensures
        contains(b, q),
{
    let k = choose|k: int| matches_at(a, q, k);
    assert(b.subrange(k, k + q.len()) =~= a.subrange(k, k + q.len())) by {
        assert forall|i: int| 0 <= i < q.len() implies #[trigger] b.subrange(k, k + q.len())[i]
            == a.subrange(k, k + q.len())[i] by {
            assert(b.take(a.len() as int)[k + i] == a[k + i]);
        }
    }
    assert(matches_at(b, q, k));
}

pub(crate) proof fn lemma_extends_trans(a: Seq<char>, b: Seq<char>, c: Seq<char>)
    requires
        extends(a, b),
        extends(b, c),
    ensures
        extends(a, c),
{
    assert(c.take(a.len() as int) =~= c.take(b.len() as int).take(a.len() as int));
}

pub(crate) proof fn lemma_extends_add(a: Seq<char>, x: Seq<char>)
    ensures
        extends(a, a + x),
{
    assert((a + x).take(a.len() as int) =~= a);
}

pub(crate) proof fn lemma_ends_contains(a: Seq<char>, q: Seq<char>)
    ensures
        contains(a + q, q),
{
    let n = a.len() as int;
    assert((a + q).subrange(n, n + q.len()) =~= q);
    assert(matches_at(a + q, q, n));
}

proof fn lemma_assoc(a: Seq<char>, b: Seq<char>, c: Seq<char>)
    ensures
        (a + b) + c == a + (b + c),
{
    assert((a + b) + c =~= a + (b + c));
}

// ---- rows ---------------------------------------------------------------------------

/// The C++ type of stored values: the string type of the language is `QString`.
pub open spec fn raw_type(t: Seq<char>) -> Seq<char> {
    if t == "::cute::String"@ {
        "QString"@
    } else {
        t
    }
}

/// The rows that read the first `n` properties: each under its own position.
pub open spec fn read_rows(v: Seq<PropInfo>, n: int) -> Seq<char>
    decreases n,
{
    if n <= 0 {
        Seq::empty()
    } else {
        read_rows(v, n - 1) + ("        case "@ + decimal((n - 1) as nat) + ": *reinterpret_cast<"@
            + raw_type(v[n - 1].cpp_type@) + "*>(_v) = _t->"@ + v[n - 1].name@ + "(); break;\n"@)
    }
}

/// The rows that write those of the first `n` properties that can be written:
/// each under its own position among all properties.
pub open spec fn write_rows(v: Seq<PropInfo>, n: int) -> Seq<char>
    decreases n,
{
    if n <= 0 {
        Seq::empty()
    } else if v[n - 1].writable {
        write_rows(v, n - 1) + ("        case "@ + decimal((n - 1) as nat) + ": _t->"@ + v[n
            - 1].setter@ + "(*reinterpret_cast<"@ + raw_type(v[n - 1].cpp_type@)
            + "*>(_v)); break;\n"@)
    } else {
        write_rows(v, n - 1)
    }
}

/// The property can be bound: it is stored bindably, or bound to an expression.
pub open spec fn can_be_bound(p: PropInfo) -> bool {
    p.kind is Bindable || p.kind is Bind
}

/// The rows that bind those of the first `n` properties that can be bound: each
/// under its own position among all properties.
pub open spec fn bindable_rows(v: Seq<PropInfo>, n: int) -> Seq<char>
    decreases n,
{
    if n <= 0 {
        Seq::empty()
    } else if can_be_bound(v[n - 1]) {
        bindable_rows(v, n - 1) + ("        case "@ + decimal((n - 1) as nat)
            + ": *static_cast<QUntypedBindable*>(_b) = _t->"@ + v[n - 1].bindable_getter->0@
            + "(); break;\n"@)
    } else {
        bindable_rows(v, n - 1)
    }
}

/// The rows of the property table.
pub open spec fn property_rows(v: Seq<PropInfo>, table: Seq<Seq<char>>, n: int) -> Seq<char>
    decreases n,
{
    if n <= 0 {
        Seq::empty()
    } else {
        property_rows(v, table, n - 1) + property_row(v[n - 1], table, n - 1)
    }
}

/// The row of the property table for one property: whether it can be written and
/// whether it can be bound show in its flags, and its signal stands last.
pub open spec fn property_row(p: PropInfo, table: Seq<Seq<char>>, k: int) -> Seq<char> {
    "        // property "@ + decimal(k as nat) + ": "@ + p.name@ + "\n"@
        + "        QtMocHelpers::PropertyData<"@ + raw_type(p.cpp_type@) + ">("@ + decimal(
        table_index(table, p.name@) as nat,
    ) + ", "@ + p.qmetatype@ + ", "@ + ("QMC::DefaultPropertyFlags"@ + (if p.writable {
        " | QMC::Writable"@
    } else {
        ""@
    }) + " | QMC::StdCppSet"@ + (if can_be_bound(p) {
        " | QMC::Bindable"@
    } else {
        ""@
    })) + (match p.notify_signal_idx {
        Some(i) => ", "@ + decimal(i as nat),
        None => ""@,
    }) + "),\n"@
}

/// What can be called by its number: a signal has no result type.
pub struct Callable {
    pub word: Seq<char>,
    pub name: Seq<char>,
    pub params: Seq<ParamInfo>,
    pub result: Option<Seq<char>>,
}

/// The first `n` signals.
pub open spec fn signal_calls(v: Seq<SignalInfo>, n: int) -> Seq<Callable>
    decreases n,
{
    if n <= 0 {
        Seq::empty()
    } else {
        signal_calls(v, n - 1).push(
            Callable {
                word: "signal"@,
                name: v[n - 1].name@,
                params: v[n - 1].params@,
                result: None,
            },
        )
    }
}

/// Those of the first `n` methods that have a receiver.
pub open spec fn method_calls(v: Seq<MethodInfo>, word: Seq<char>, n: int) -> Seq<Callable>
    decreases n,
{
    if n <= 0 {
        Seq::empty()
    } else if v[n - 1].is_static {
        method_calls(v, word, n - 1)
    } else {
        method_calls(v, word, n - 1).push(
            Callable {
                word,
                name: v[n - 1].name@,
                params: v[n - 1].params@,
                result: Some(v[n - 1].return_type@),
            },
        )
    }
}

/// All that can be called by its number, in the order of the numbers: the
/// signals, the methods and the slots.
pub open spec fn callables(info: ClassInfo) -> Seq<Callable> {
    signal_calls(info.signals@, info.signals@.len() as int) + method_calls(
        info.methods@,
        "method"@,
        info.methods@.len() as int,
    ) + method_calls(info.slots@, "slot"@, info.slots@.len() as int)
}

/// The arguments that a call unpacks: slot 0 is the result, so that the first
/// argument stands in slot 1.
pub open spec fn unpacked(params: Seq<ParamInfo>, n: int) -> Seq<char>
    decreases n,
{
    if n <= 0 {
        Seq::empty()
    } else {
        unpacked(params, n - 1) + ("auto& a"@ + decimal((n - 1) as nat) + " = *reinterpret_cast<"@
            + raw_type(params[n - 1].cpp_type@) + "*>(_a["@ + decimal(n as nat) + "]); "@)
    }
}

/// `a0, a1, ...`.
pub open spec fn passed_on(n: nat) -> Seq<char> {
    join(Seq::new(n, |i: int| "a"@ + decimal(i as nat)), ", "@)
}

/// The C++ types of parameters.
pub open spec fn types_of(params: Seq<ParamInfo>) -> Seq<char> {
    join(Seq::new(params.len(), |i: int| params[i].cpp_type@), ", "@)
}

/// The rows that call the first `n`, numbered from `from`.
pub open spec fn call_rows(v: Seq<Callable>, from: int, n: int) -> Seq<char>
    decreases n,
{
    if n <= 0 {
        Seq::empty()
    } else {
        call_rows(v, from, n - 1) + ("        case "@ + decimal((from + n - 1) as nat) + ": { "@
            + unpacked(v[n - 1].params, v[n - 1].params.len() as int) + "_t->"@ + v[n - 1].name
            + "("@ + passed_on(v[n - 1].params.len()) + "); break; }\n"@)
    }
}

/// The meta-types of parameters, each with the empty name.
pub open spec fn meta_cells(params: Seq<ParamInfo>, empty: int) -> Seq<char> {
    if params.len() == 0 {
        ""@
    } else {
        ", {{"@ + join(
            Seq::new(
                params.len(),
                |i: int| "{"@ + params[i].qmetatype@ + ", "@ + decimal(empty as nat) + "}"@,
            ),
            ", "@,
        ) + "}}"@
    }
}

/// The row of the method table for one thing under a number.
pub open spec fn table_row(c: Callable, table: Seq<Seq<char>>, k: int) -> Seq<char> {
    match c.result {
        Some(r) => "        // "@ + c.word + " "@ + decimal(k as nat) + ": "@ + c.name + "\n"@
            + "        QtMocHelpers::MethodData<"@ + (r + "("@ + types_of(c.params) + ")"@) + ">("@
            + decimal(table_index(table, c.name) as nat) + ", "@ + decimal(
            table_index(table, ""@) as nat,
        ) + ", QMC::AccessPublic, "@ + return_metatype(r) + meta_cells(
            c.params,
            table_index(table, ""@),
        ) + "),\n"@,
        None => "        // signal "@ + decimal(k as nat) + ": "@ + c.name + "\n"@
            + "        QtMocHelpers::SignalData<"@ + ("void("@ + types_of(c.params) + ")"@) + ">("@
            + decimal(table_index(table, c.name) as nat) + ", "@ + decimal(
            table_index(table, ""@) as nat,
        ) + ", QMC::AccessPublic, QMetaType::Void"@ + meta_cells(
            c.params,
            table_index(table, ""@),
        ) + "),\n"@,
    }
}

/// The rows of the method table for the first `n`, numbered from `from`.
pub open spec fn table_rows(v: Seq<Callable>, table: Seq<Seq<char>>, from: int, n: int) -> Seq<char>
    decreases n,
{
    if n <= 0 {
        Seq::empty()
    } else {
        table_rows(v, table, from, n - 1) + table_row(v[n - 1], table, from + n - 1)
    }
}

/// The rows that find the number of a signal.
pub open spec fn lookup_rows(cls: Seq<char>, v: Seq<SignalInfo>, n: int) -> Seq<char>
    decreases n,
{
    if n <= 0 {
        Seq::empty()
    } else {
        lookup_rows(cls, v, n - 1) + ("        if (QtMocHelpers::indexOfMethod<void ("@ + cls
            + "::*)("@ + types_of(v[n - 1].params@) + ")>(_a, &"@ + cls + "::"@ + v[n - 1].name@
            + ", "@ + decimal((n - 1) as nat) + "))\n"@ + "            return;\n"@)
    }
}

/// The function of a signal: it activates its own number, with the addresses of
/// all its parameters behind the slot of the result.
pub open spec fn activation(cls: Seq<char>, sig: SignalInfo, k: int) -> Seq<char> {
    let p = sig.params@;
    let decls = join(Seq::new(p.len(), |i: int| p[i].cpp_type@ + " "@ + p[i].name@), ", "@);
    let addresses = join(
        Seq::new(
            p.len(),
            |i: int| "const_cast<void*>(static_cast<const void*>(&"@ + p[i].name@ + "))"@,
        ),
        ", "@,
    );
    let head = "// SIGNAL "@ + decimal(k as nat) + "\n"@ + "void "@ + cls + "::"@ + sig.name@
        + "("@ + decls + ")\n"@ + "{\n"@;
    if p.len() == 0 {
        head + "    QMetaObject::activate(this, &staticMetaObject, "@ + decimal(k as nat)
            + ", nullptr);\n"@ + "}\n"@ + "\n"@
    } else {
        head + "    void* _a[] = { nullptr, "@ + addresses + " };\n"@
            + "    QMetaObject::activate(this, &staticMetaObject, "@ + decimal(k as nat)
            + ", _a);\n"@ + "}\n"@ + "\n"@
    }
}

/// The functions of the first `n` signals.
pub open spec fn activations(cls: Seq<char>, v: Seq<SignalInfo>, n: int) -> Seq<char>
    decreases n,
{
    if n <= 0 {
        Seq::empty()
    } else {
        activations(cls, v, n - 1) + activation(cls, v[n - 1], n - 1)
    }
}

/// The rows of the string table.
pub open spec fn string_rows(table: Seq<Seq<char>>, n: int) -> Seq<char>
    decreases n,
{
    if n <= 0 {
        Seq::empty()
    } else {
        string_rows(table, n - 1) + ("        \""@ + c_escaped(
            table[n - 1],
            table[n - 1].len() as int,
        ) + "\",\n"@)
    }
}

/// The end of a switch.
pub open spec fn switch_tail() -> Seq<char> {
    "        default: break;\n        }\n    }\n"@
}

// ---- tables and switches as rows ------------------------------------------------------

proof fn lemma_read(s: Seq<char>, v: Seq<PropInfo>, n: int)
    ensures
        read_cases_text(s, v, n) == s + read_rows(v, n),
    decreases n,
{
    if n > 0 {
        lemma_read(s, v, n - 1);
        let a = read_rows(v, n - 1);
        let d = decimal((n - 1) as nat);
        let t = raw_type(v[n - 1].cpp_type@);
        let m = v[n - 1].name@;
        assert(s + a + "        case "@ + d + ": *reinterpret_cast<"@ + t + "*>(_v) = _t->"@ + m
            + "(); break;\n"@ =~= s + (a + ("        case "@ + d + ": *reinterpret_cast<"@ + t
            + "*>(_v) = _t->"@ + m + "(); break;\n"@)));
    } else {
        assert(s + Seq::empty() =~= s);
    }
}

proof fn lemma_write(s: Seq<char>, v: Seq<PropInfo>, n: int)
    ensures
        write_cases_text(s, v, n) == s + write_rows(v, n),
    decreases n,
{
    if n > 0 {
        lemma_write(s, v, n - 1);
        let a = write_rows(v, n - 1);
        let d = decimal((n - 1) as nat);
        let t = raw_type(v[n - 1].cpp_type@);
        let m = v[n - 1].setter@;
        assert(s + a + "        case "@ + d + ": _t->"@ + m + "(*reinterpret_cast<"@ + t
            + "*>(_v)); break;\n"@ =~= s + (a + ("        case "@ + d + ": _t->"@ + m
            + "(*reinterpret_cast<"@ + t + "*>(_v)); break;\n"@)));
    } else {
        assert(s + Seq::empty() =~= s);
    }
}

proof fn lemma_bindable(s: Seq<char>, v: Seq<PropInfo>, n: int)
    ensures
        bindable_cases_text(s, v, n) == s + bindable_rows(v, n),
    decreases n,
{
    if n > 0 {
        lemma_bindable(s, v, n - 1);
        let a = bindable_rows(v, n - 1);
        let d = decimal((n - 1) as nat);
        let g = v[n - 1].bindable_getter->0@;
        assert(s + a + "        case "@ + d + ": *static_cast<QUntypedBindable*>(_b) = _t->"@ + g
            + "(); break;\n"@ =~= s + (a + ("        case "@ + d
            + ": *static_cast<QUntypedBindable*>(_b) = _t->"@ + g + "(); break;\n"@)));
    } else {
        assert(s + Seq::empty() =~= s);
    }
}

proof fn lemma_properties(s: Seq<char>, v: Seq<PropInfo>, table: Seq<Seq<char>>, n: int)
    ensures
        property_entries_text(s, v, table, n) == s + property_rows(v, table, n),
    decreases n,
{
    if n > 0 {
        lemma_properties(s, v, table, n - 1);
        let p = v[n - 1];
        let a = property_rows(v, table, n - 1);
        let b = s + a;
        let d = decimal((n - 1) as nat);
        let k = decimal(table_index(table, p.name@) as nat);
        let t = raw_type(p.cpp_type@);
        let f = property_flags(p);
        let x = notify_argument(p);
        let q0 = "        // property "@;
        let q1 = q0 + d;
        let q2 = q1 + ": "@;
        let q3 = q2 + p.name@;
        let q4 = q3 + "\n"@;
        let q5 = q4 + "        QtMocHelpers::PropertyData<"@;
        let q6 = q5 + t;
        let q7 = q6 + ">("@;
        let q8 = q7 + k;
        let q9 = q8 + ", "@;
        let q10 = q9 + p.qmetatype@;
        let q11 = q10 + ", "@;
        let q12 = q11 + f;
        let q13 = q12 + x;
        let q14 = q13 + "),\n"@;
        lemma_assoc(b, q0, d);
        lemma_assoc(b, q1, ": "@);
        lemma_assoc(b, q2, p.name@);
        lemma_assoc(b, q3, "\n"@);
        lemma_assoc(b, q4, "        QtMocHelpers::PropertyData<"@);
        lemma_assoc(b, q5, t);
        lemma_assoc(b, q6, ">("@);
        lemma_assoc(b, q7, k);
        lemma_assoc(b, q8, ", "@);
        lemma_assoc(b, q9, p.qmetatype@);
        lemma_assoc(b, q10, ", "@);
        lemma_assoc(b, q11, f);
        lemma_assoc(b, q12, x);
        lemma_assoc(b, q13, "),\n"@);
        assert(property_entry_text(b, v, table, n - 1) == b + q14);
        assert(property_row(p, table, n - 1) == q14);
        lemma_assoc(s, a, q14);
    } else {
        assert(s + Seq::empty() =~= s);
    }
}

proof fn lemma_unpack(params: Seq<ParamInfo>, n: int)
    ensures
        unpack_text(params, n) == unpacked(params, n),
    decreases n,
{
    if n > 0 {
        lemma_unpack(params, n - 1);
        let a = unpacked(params, n - 1);
        let d = decimal((n - 1) as nat);
        let e = decimal(n as nat);
        let t = raw_type(params[n - 1].cpp_type@);
        assert(a + "auto& a"@ + d + " = *reinterpret_cast<"@ + t + "*>(_a["@ + e + "]); "@ =~= a + (
        "auto& a"@ + d + " = *reinterpret_cast<"@ + t + "*>(_a["@ + e + "]); "@));
    }
}

/// The row that calls one thing under a number.
spec fn call_row(c: Callable, k: int) -> Seq<char> {
    "        case "@ + decimal(k as nat) + ": { "@ + unpacked(c.params, c.params.len() as int)
        + "_t->"@ + c.name + "("@ + passed_on(c.params.len()) + "); break; }\n"@
}

proof fn lemma_case(s: Seq<char>, c: Callable, k: int)
    ensures
        invoke_case_text(s, c.name, c.params, k) == s + call_row(c, k),
{
    lemma_unpack(c.params, c.params.len() as int);
    let d = decimal(k as nat);
    let u = unpacked(c.params, c.params.len() as int);
    assert(arg_names(c.params.len()) =~= Seq::new(
        c.params.len(),
        |i: int| "a"@ + decimal(i as nat),
    ));
    let p = passed_on(c.params.len());
    assert(s + "        case "@ + d + ": { "@ + u + "_t->"@ + c.name + "("@ + p + "); break; }\n"@
        =~= s + ("        case "@ + d + ": { "@ + u + "_t->"@ + c.name + "("@ + p
        + "); break; }\n"@));
}

proof fn lemma_call_rows_prefix(a: Seq<Callable>, b: Seq<Callable>, from: int, n: int)
    requires
        n <= a.len(),
    ensures
        call_rows(a + b, from, n) == call_rows(a, from, n),
    decreases n,
{
    if n > 0 {
        lemma_call_rows_prefix(a, b, from, n - 1);
        assert((a + b)[n - 1] == a[n - 1]);
    }
}

proof fn lemma_call_rows_join(a: Seq<Callable>, b: Seq<Callable>, from: int, n: int)
    requires
        0 <= n <= b.len(),
    ensures
        call_rows(a + b, from, a.len() + n) == call_rows(a, from, a.len() as int) + call_rows(
            b,
            from + a.len(),
            n,
        ),
    decreases n,
{
    if n == 0 {
        lemma_call_rows_prefix(a, b, from, a.len() as int);
        assert(call_rows(a, from, a.len() as int) + Seq::empty() =~= call_rows(
            a,
            from,
            a.len() as int,
        ));
    } else {
        lemma_call_rows_join(a, b, from, n - 1);
        assert((a + b)[a.len() + n - 1] == b[n - 1]);
        let x = call_rows(a, from, a.len() as int);
        let y = call_rows(b, from + a.len(), n - 1);
        let z = call_row(b[n - 1], from + a.len() + n - 1);
        assert(call_rows(a + b, from, a.len() + n) == (x + y) + z);
        assert((x + y) + z =~= x + (y + z));
    }
}

proof fn lemma_signal_cases(s: Seq<char>, v: Seq<SignalInfo>, n: int)
    requires
        0 <= n,
    ensures
        signal_calls(v, n).len() == n,
        signal_cases_text(s, v, n) == s + call_rows(signal_calls(v, n), 0, n),
    decreases n,
{
    if n > 0 {
        lemma_signal_cases(s, v, n - 1);
        let before = signal_calls(v, n - 1);
        let c = signal_calls(v, n).last();
        lemma_case(s + call_rows(before, 0, n - 1), c, n - 1);
        assert(before + seq![c] =~= signal_calls(v, n));
        lemma_call_rows_prefix(before, seq![c], 0, n - 1);
        let y = call_rows(before, 0, n - 1);
        let z = call_row(c, n - 1);
        assert((s + y) + z =~= s + (y + z));
    } else {
        assert(s + Seq::empty() =~= s);
    }
}

proof fn lemma_method_calls(v: Seq<MethodInfo>, word: Seq<char>, n: int)
    requires
        0 <= n,
    ensures
        method_calls(v, word, n).len() == instance_count(v, n),
    decreases n,
{
    if n > 0 {
        lemma_method_calls(v, word, n - 1);
    }
}

proof fn lemma_method_cases(s: Seq<char>, v: Seq<MethodInfo>, word: Seq<char>, base: int, n: int)
    requires
        0 <= n,
    ensures
        method_cases_text(s, v, base, n) == s + call_rows(
            method_calls(v, word, n),
            base,
            method_calls(v, word, n).len() as int,
        ),
    decreases n,
{
    if n > 0 {
        lemma_method_cases(s, v, word, base, n - 1);
        lemma_method_calls(v, word, n - 1);
        if !v[n - 1].is_static {
            let before = method_calls(v, word, n - 1);
            let c = method_calls(v, word, n).last();
            let k = before.len() as int;
            lemma_case(s + call_rows(before, base, k), c, base + k);
            assert(before + seq![c] =~= method_calls(v, word, n));
            lemma_call_rows_prefix(before, seq![c], base, k);
            let y = call_rows(before, base, k);
            let z = call_row(c, base + k);
            assert((s + y) + z =~= s + (y + z));
        }
    } else {
        assert(s + Seq::empty() =~= s);
    }
}

proof fn lemma_cells(params: Seq<ParamInfo>, empty: int)
    ensures
        entry_params(params, empty) == meta_cells(params, empty),
        join(param_types(params), ", "@) == types_of(params),
{
    assert(param_types(params) =~= Seq::new(params.len(), |i: int| params[i].cpp_type@));
    let cells = Seq::new(
        params.len(),
        |i: int| "{"@ + params[i].qmetatype@ + ", "@ + decimal(empty as nat) + "}"@,
    );
    assert(param_cells(params, empty) =~= cells);
    let j = join(cells, ", "@);
    assert(", {{"@ =~= ", "@ + "{{"@) by {
        reveal_strlit(", {{");
        reveal_strlit(", ");
        reveal_strlit("{{");
    }
    assert(", "@ + ("{{"@ + j + "}}"@) =~= ", {{"@ + j + "}}"@);
}

proof fn lemma_signal_row(s: Seq<char>, v: Seq<SignalInfo>, table: Seq<Seq<char>>, n: int)
    requires
        n > 0,
    ensures
        signal_entry_text(s, v, table, n - 1) == s + table_row(
            signal_calls(v, n).last(),
            table,
            n - 1,
        ),
{
    let c = signal_calls(v, n).last();
    let e = table_index(table, ""@);
    lemma_cells(c.params, e);
    let d = decimal((n - 1) as nat);
    let i = decimal(table_index(table, c.name) as nat);
    let z = decimal(e as nat);
    let t = "void("@ + types_of(c.params) + ")"@;
    let x = meta_cells(c.params, e);
    let q0 = "        // signal "@;
    let q1 = q0 + d;
    let q2 = q1 + ": "@;
    let q3 = q2 + c.name;
    let q4 = q3 + "\n"@;
    let q5 = q4 + "        QtMocHelpers::SignalData<"@;
    let q6 = q5 + t;
    let q7 = q6 + ">("@;
    let q8 = q7 + i;
    let q9 = q8 + ", "@;
    let q10 = q9 + z;
    let q11 = q10 + ", QMC::AccessPublic, QMetaType::Void"@;
    let q12 = q11 + x;
    let q13 = q12 + "),\n"@;
    lemma_assoc(s, q0, d);
    lemma_assoc(s, q1, ": "@);
    lemma_assoc(s, q2, c.name);
    lemma_assoc(s, q3, "\n"@);
    lemma_assoc(s, q4, "        QtMocHelpers::SignalData<"@);
    lemma_assoc(s, q5, t);
    lemma_assoc(s, q6, ">("@);
    lemma_assoc(s, q7, i);
    lemma_assoc(s, q8, ", "@);
    lemma_assoc(s, q9, z);
    lemma_assoc(s, q10, ", QMC::AccessPublic, QMetaType::Void"@);
    lemma_assoc(s, q11, x);
    lemma_assoc(s, q12, "),\n"@);
    assert(signal_entry_text(s, v, table, n - 1) == s + q13);
    assert(table_row(c, table, n - 1) == q13);
}

proof fn lemma_method_row(
    s: Seq<char>,
    m: MethodInfo,
    c: Callable,
    table: Seq<Seq<char>>,
    k: int,
)
    requires
        c.name == m.name@,
        c.params == m.params@,
        c.result == Some(m.return_type@),
    ensures
        method_entry_text(s, m, table, c.word, k) == s + table_row(c, table, k),
{
    let e = table_index(table, ""@);
    lemma_cells(c.params, e);
    let d = decimal(k as nat);
    let i = decimal(table_index(table, c.name) as nat);
    let z = decimal(e as nat);
    let r = m.return_type@;
    let t = r + "("@ + types_of(c.params) + ")"@;
    let x = meta_cells(c.params, e);
    let q0 = "        // "@;
    let q1 = q0 + c.word;
    let q2 = q1 + " "@;
    let q3 = q2 + d;
    let q4 = q3 + ": "@;
    let q5 = q4 + c.name;
    let q6 = q5 + "\n"@;
    let q7 = q6 + "        QtMocHelpers::MethodData<"@;
    let q8 = q7 + t;
    let q9 = q8 + ">("@;
    let q10 = q9 + i;
    let q11 = q10 + ", "@;
    let q12 = q11 + z;
    let q13 = q12 + ", QMC::AccessPublic, "@;
    let q14 = q13 + return_metatype(r);
    let q15 = q14 + x;
    let q16 = q15 + "),\n"@;
    lemma_assoc(s, q0, c.word);
    lemma_assoc(s, q1, " "@);
    lemma_assoc(s, q2, d);
    lemma_assoc(s, q3, ": "@);
    lemma_assoc(s, q4, c.name);
    lemma_assoc(s, q5, "\n"@);
    lemma_assoc(s, q6, "        QtMocHelpers::MethodData<"@);
    lemma_assoc(s, q7, t);
    lemma_assoc(s, q8, ">("@);
    lemma_assoc(s, q9, i);
    lemma_assoc(s, q10, ", "@);
    lemma_assoc(s, q11, z);
    lemma_assoc(s, q12, ", QMC::AccessPublic, "@);
    lemma_assoc(s, q13, return_metatype(r));
    lemma_assoc(s, q14, x);
    lemma_assoc(s, q15, "),\n"@);
    assert(method_entry_text(s, m, table, c.word, k) == s + q16);
    assert(table_row(c, table, k) == q16);
}

proof fn lemma_table_rows_prefix(
    a: Seq<Callable>,
    b: Seq<Callable>,
    table: Seq<Seq<char>>,
    from: int,
    n: int,
)
    requires
        n <= a.len(),
    ensures
        table_rows(a + b, table, from, n) == table_rows(a, table, from, n),
    decreases n,
{
    if n > 0 {
        lemma_table_rows_prefix(a, b, table, from, n - 1);
        assert((a + b)[n - 1] == a[n - 1]);
    }
}

proof fn lemma_table_rows_join(
    a: Seq<Callable>,
    b: Seq<Callable>,
    table: Seq<Seq<char>>,
    from: int,
    n: int,
)
    requires
        0 <= n <= b.len(),
    ensures
        table_rows(a + b, table, from, a.len() + n) == table_rows(a, table, from, a.len() as int)
            + table_rows(b, table, from + a.len(), n),
    decreases n,
{
    let x = table_rows(a, table, from, a.len() as int);
    if n == 0 {
        lemma_table_rows_prefix(a, b, table, from, a.len() as int);
        assert(x + Seq::empty() =~= x);
    } else {
        lemma_table_rows_join(a, b, table, from, n - 1);
        assert((a + b)[a.len() + n - 1] == b[n - 1]);
        let y = table_rows(b, table, from + a.len(), n - 1);
        let z = table_row(b[n - 1], table, from + a.len() + n - 1);
        assert(table_rows(a + b, table, from, a.len() + n) == (x + y) + z);
        assert((x + y) + z =~= x + (y + z));
    }
}

proof fn lemma_signal_entries(s: Seq<char>, v: Seq<SignalInfo>, table: Seq<Seq<char>>, n: int)
    requires
        0 <= n,
    ensures
        signal_calls(v, n).len() == n,
        signal_entries_text(s, v, table, n) == s + table_rows(signal_calls(v, n), table, 0, n),
    decreases n,
{
    if n > 0 {
        lemma_signal_entries(s, v, table, n - 1);
        let before = signal_calls(v, n - 1);
        let c = signal_calls(v, n).last();
        let y = table_rows(before, table, 0, n - 1);
        lemma_signal_row(s + y, v, table, n);
        assert(before + seq![c] =~= signal_calls(v, n));
        lemma_table_rows_prefix(before, seq![c], table, 0, n - 1);
        let z = table_row(c, table, n - 1);
        assert((s + y) + z =~= s + (y + z));
    } else {
        assert(s + Seq::empty() =~= s);
    }
}

proof fn lemma_method_entries(
    s: Seq<char>,
    v: Seq<MethodInfo>,
    table: Seq<Seq<char>>,
    word: Seq<char>,
    base: int,
    n: int,
)
    requires
        0 <= n,
    ensures
        method_entries_text(s, v, table, word, base, n) == s + table_rows(
            method_calls(v, word, n),
            table,
            base,
            method_calls(v, word, n).len() as int,
        ),
    decreases n,
{
    if n > 0 {
        lemma_method_entries(s, v, table, word, base, n - 1);
        lemma_method_calls(v, word, n - 1);
        if !v[n - 1].is_static {
            let before = method_calls(v, word, n - 1);
            let c = method_calls(v, word, n).last();
            let k = before.len() as int;
            let y = table_rows(before, table, base, k);
            lemma_method_row(s + y, v[n - 1], c, table, base + k);
            assert(before + seq![c] =~= method_calls(v, word, n));
            lemma_table_rows_prefix(before, seq![c], table, base, k);
            let z = table_row(c, table, base + k);
            assert((s + y) + z =~= s + (y + z));
        }
    } else {
        assert(s + Seq::empty() =~= s);
    }
}

proof fn lemma_lookups(s: Seq<char>, cls: Seq<char>, v: Seq<SignalInfo>, n: int)
    ensures
        index_of_signals_text(s, cls, v, n) == s + lookup_rows(cls, v, n),
    decreases n,
{
    if n > 0 {
        lemma_lookups(s, cls, v, n - 1);
        lemma_cells(v[n - 1].params@, 0);
        let a = lookup_rows(cls, v, n - 1);
        let t = types_of(v[n - 1].params@);
        let d = decimal((n - 1) as nat);
        let m = v[n - 1].name@;
        let b = s + a;
        let q0 = "        if (QtMocHelpers::indexOfMethod<void ("@;
        let q1 = q0 + cls;
        let q2 = q1 + "::*)("@;
        let q3 = q2 + t;
        let q4 = q3 + ")>(_a, &"@;
        let q5 = q4 + cls;
        let q6 = q5 + "::"@;
        let q7 = q6 + m;
        let q8 = q7 + ", "@;
        let q9 = q8 + d;
        let q10 = q9 + "))\n"@;
        let q11 = q10 + "            return;\n"@;
        lemma_assoc(b, q0, cls);
        lemma_assoc(b, q1, "::*)("@);
        lemma_assoc(b, q2, t);
        lemma_assoc(b, q3, ")>(_a, &"@);
        lemma_assoc(b, q4, cls);
        lemma_assoc(b, q5, "::"@);
        lemma_assoc(b, q6, m);
        lemma_assoc(b, q7, ", "@);
        lemma_assoc(b, q8, d);
        lemma_assoc(b, q9, "))\n"@);
        lemma_assoc(b, q10, "            return;\n"@);
        assert(index_of_signal_text(b, cls, v, n - 1) == b + q11);
        lemma_assoc(s, a, q11);
    } else {
        assert(s + Seq::empty() =~= s);
    }
}

proof fn lemma_body(s: Seq<char>, cls: Seq<char>, sig: SignalInfo, n: int)
    ensures
        signal_body_text(s, cls, sig, n) == s + activation(cls, sig, n),
{
    let p = sig.params@;
    let k = decimal(n as nat);
    let decls = Seq::new(p.len(), |i: int| p[i].cpp_type@ + " "@ + p[i].name@);
    let adds = Seq::new(
        p.len(),
        |i: int| "const_cast<void*>(static_cast<const void*>(&"@ + p[i].name@ + "))"@,
    );
    assert(param_decls(p) =~= decls);
    assert(param_addresses(p) =~= adds);
    let j = join(decls, ", "@);
    let x = join(adds, ", "@);
    let h0 = "// SIGNAL "@;
    let h1 = h0 + k;
    let h2 = h1 + "\n"@;
    let h3 = h2 + "void "@;
    let h4 = h3 + cls;
    let h5 = h4 + "::"@;
    let h6 = h5 + sig.name@;
    let h7 = h6 + "("@;
    let h8 = h7 + j;
    let h9 = h8 + ")\n"@;
    let h10 = h9 + "{\n"@;
    lemma_assoc(s, h0, k);
    lemma_assoc(s, h1, "\n"@);
    lemma_assoc(s, h2, "void "@);
    lemma_assoc(s, h3, cls);
    lemma_assoc(s, h4, "::"@);
    lemma_assoc(s, h5, sig.name@);
    lemma_assoc(s, h6, "("@);
    lemma_assoc(s, h7, j);
    lemma_assoc(s, h8, ")\n"@);
    lemma_assoc(s, h9, "{\n"@);
    assert(signal_head_text(s, cls, sig, n) == s + h10);
    if p.len() == 0 {
        let q0 = h10;
        let q1 = q0 + "    QMetaObject::activate(this, &staticMetaObject, "@;
        let q2 = q1 + k;
        let q3 = q2 + ", nullptr);\n"@;
        let q4 = q3 + "}\n"@;
        let q5 = q4 + "\n"@;
        lemma_assoc(s, q0, "    QMetaObject::activate(this, &staticMetaObject, "@);
        lemma_assoc(s, q1, k);
        lemma_assoc(s, q2, ", nullptr);\n"@);
        lemma_assoc(s, q3, "}\n"@);
        lemma_assoc(s, q4, "\n"@);
        assert(signal_body_text(s, cls, sig, n) == s + q5);
        assert(activation(cls, sig, n) == q5);
    } else {
        let q0 = h10;
        let q1 = q0 + "    void* _a[] = { nullptr, "@;
        let q2 = q1 + x;
        let q3 = q2 + " };\n"@;
        let q4 = q3 + "    QMetaObject::activate(this, &staticMetaObject, "@;
        let q5 = q4 + k;
        let q6 = q5 + ", _a);\n"@;
        let q7 = q6 + "}\n"@;
        let q8 = q7 + "\n"@;
        lemma_assoc(s, q0, "    void* _a[] = { nullptr, "@);
        lemma_assoc(s, q1, x);
        lemma_assoc(s, q2, " };\n"@);
        lemma_assoc(s, q3, "    QMetaObject::activate(this, &staticMetaObject, "@);
        lemma_assoc(s, q4, k);
        lemma_assoc(s, q5, ", _a);\n"@);
        lemma_assoc(s, q6, "}\n"@);
        lemma_assoc(s, q7, "\n"@);
        assert(signal_body_text(s, cls, sig, n) == s + q8);
        assert(activation(cls, sig, n) == q8);
    }
}

proof fn lemma_bodies(s: Seq<char>, cls: Seq<char>, v: Seq<SignalInfo>, n: int)
    ensures
        signal_bodies_text(s, cls, v, n) == s + activations(cls, v, n),
    decreases n,
{
    if n > 0 {
        lemma_bodies(s, cls, v, n - 1);
        let a = activations(cls, v, n - 1);
        lemma_body(s + a, cls, v[n - 1], n - 1);
        lemma_assoc(s, a, activation(cls, v[n - 1], n - 1));
    } else {
        assert(s + Seq::empty() =~= s);
    }
}

proof fn lemma_strings(s: Seq<char>, table: Seq<Seq<char>>, n: int)
    ensures
        table_lines_text(s, table, n) == s + string_rows(table, n),
    decreases n,
{
    if n > 0 {
        lemma_strings(s, table, n - 1);
        let a = string_rows(table, n - 1);
        let c = c_escaped(table[n - 1], table[n - 1].len() as int);
        assert(s + a + "        \""@ + c + "\",\n"@ =~= s + (a + ("        \""@ + c + "\",\n"@)));
    } else {
        assert(s + Seq::empty() =~= s);
    }
}

proof fn lemma_switch_end(s: Seq<char>)
    ensures
        switch_end(s) == s + switch_tail(),
{
    assert(switch_tail() =~= "        default: break;\n"@ + "        }\n"@ + "    }\n"@) by {
        reveal_strlit("        default: break;\n        }\n    }\n");
        reveal_strlit("        default: break;\n");
        reveal_strlit("        }\n");
        reveal_strlit("    }\n");
    }
    assert(s + "        default: break;\n"@ + "        }\n"@ + "    }\n"@ =~= s + (
    "        default: break;\n"@ + "        }\n"@ + "    }\n"@));
}

// ---- the whole section -----------------------------------------------------------------

proof fn lemma_ext_tail(s: Seq<char>, cls: Seq<char>, tag: Seq<char>)
    ensures
        extends(s, emit_data_tail_text(s, cls, tag)),
{
    lemma_extends_add(s, "    };\n"@);
    let t0 = s + "    };\n"@;
    let t1 = t0 + "    QtMocHelpers::UintData qt_enums {};\n"@;
    let t2 = t1 + "\n"@;
    let t3 = t2 + "    return QtMocHelpers::metaObjectData<"@;
    let t4 = t3 + cls;
    let t5 = t4 + ", "@;
    let t6 = t5 + tag;
    let t7 = t6 + ">(QMC::MetaObjectFlag{}, qt_stringData, qt_methods, qt_properties, qt_enums);\n"@;
    let t8 = t7 + "}\n"@;
    let t9 = t8 + "\n"@;
    lemma_extends_add(t0, "    QtMocHelpers::UintData qt_enums {};\n"@);
    lemma_extends_trans(s, t0, t1);
    lemma_extends_add(t1, "\n"@);
    lemma_extends_trans(s, t1, t2);
    lemma_extends_add(t2, "    return QtMocHelpers::metaObjectData<"@);
    lemma_extends_trans(s, t2, t3);
    lemma_extends_add(t3, cls);
    lemma_extends_trans(s, t3, t4);
    lemma_extends_add(t4, ", "@);
    lemma_extends_trans(s, t4, t5);
    lemma_extends_add(t5, tag);
    lemma_extends_trans(s, t5, t6);
    lemma_extends_add(t6, ">(QMC::MetaObjectFlag{}, qt_stringData, qt_methods, qt_properties, qt_enums);\n"@);
    lemma_extends_trans(s, t6, t7);
    lemma_extends_add(t7, "}\n"@);
    lemma_extends_trans(s, t7, t8);
    lemma_extends_add(t8, "\n"@);
    lemma_extends_trans(s, t8, t9);
}

proof fn lemma_ext_static(s: Seq<char>, cls: Seq<char>, tag: Seq<char>, sup: Seq<char>)
    ensures
        extends(s, emit_static_object_text(s, cls, tag, sup)),
{
    lemma_extends_add(s, "Q_CONSTINIT const QMetaObject "@);
    let t0 = s + "Q_CONSTINIT const QMetaObject "@;
    let t1 = t0 + cls;
    let t2 = t1 + "::staticMetaObject = { {\n"@;
    let t3 = t2 + "    QMetaObject::SuperData::link<"@;
    let t4 = t3 + sup;
    let t5 = t4 + "::staticMetaObject>(),\n"@;
    let t6 = t5 + "    "@;
    let t7 = t6 + cls;
    let t8 = t7 + "::qt_staticMetaObjectStaticContent<"@;
    let t9 = t8 + tag;
    let t10 = t9 + ">.stringdata,\n"@;
    let t11 = t10 + "    "@;
    let t12 = t11 + cls;
    let t13 = t12 + "::qt_staticMetaObjectStaticContent<"@;
    let t14 = t13 + tag;
    let t15 = t14 + ">.data,\n"@;
    let t16 = t15 + "    qt_static_metacall,\n"@;
    let t17 = t16 + "    nullptr,\n"@;
    let t18 = t17 + "    "@;
    let t19 = t18 + cls;
    let t20 = t19 + "::qt_staticMetaObjectRelocatingContent<"@;
    let t21 = t20 + tag;
    let t22 = t21 + ">.metaTypes,\n"@;
    let t23 = t22 + "    nullptr\n"@;
    let t24 = t23 + "} };\n"@;
    let t25 = t24 + "\n"@;
    let t26 = t25 + "const QMetaObject* "@;
    let t27 = t26 + cls;
    let t28 = t27 + "::metaObject() const\n"@;
    let t29 = t28 + "{\n"@;
    let t30 = t29 + "    return QObject::d_ptr->metaObject ? QObject::d_ptr->dynamicMetaObject() : &staticMetaObject;\n"@;
    let t31 = t30 + "}\n"@;
    let t32 = t31 + "\n"@;
    let t33 = t32 + "void* "@;
    let t34 = t33 + cls;
    let t35 = t34 + "::qt_metacast(const char* clname)\n"@;
    let t36 = t35 + "{\n"@;
    let t37 = t36 + "    if (!clname) return nullptr;\n"@;
    let t38 = t37 + "    if (!std::strcmp(clname, "@;
    let t39 = t38 + cls;
    let t40 = t39 + "::qt_staticMetaObjectStaticContent<"@;
    let t41 = t40 + tag;
    let t42 = t41 + ">.strings))\n"@;
    let t43 = t42 + "        return static_cast<void*>(this);\n"@;
    let t44 = t43 + "    return "@;
    let t45 = t44 + sup;
    let t46 = t45 + "::qt_metacast(clname);\n"@;
    let t47 = t46 + "}\n"@;
    let t48 = t47 + "\n"@;
    lemma_extends_add(t0, cls);
    lemma_extends_trans(s, t0, t1);
    lemma_extends_add(t1, "::staticMetaObject = { {\n"@);
    lemma_extends_trans(s, t1, t2);
    lemma_extends_add(t2, "    QMetaObject::SuperData::link<"@);
    lemma_extends_trans(s, t2, t3);
    lemma_extends_add(t3, sup);
    lemma_extends_trans(s, t3, t4);
    lemma_extends_add(t4, "::staticMetaObject>(),\n"@);
    lemma_extends_trans(s, t4, t5);
    lemma_extends_add(t5, "    "@);
    lemma_extends_trans(s, t5, t6);
    lemma_extends_add(t6, cls);
    lemma_extends_trans(s, t6, t7);
    lemma_extends_add(t7, "::qt_staticMetaObjectStaticContent<"@);
    lemma_extends_trans(s, t7, t8);
    lemma_extends_add(t8, tag);
    lemma_extends_trans(s, t8, t9);
    lemma_extends_add(t9, ">.stringdata,\n"@);
    lemma_extends_trans(s, t9, t10);
    lemma_extends_add(t10, "    "@);
    lemma_extends_trans(s, t10, t11);
    lemma_extends_add(t11, cls);
    lemma_extends_trans(s, t11, t12);
    lemma_extends_add(t12, "::qt_staticMetaObjectStaticContent<"@);
    lemma_extends_trans(s, t12, t13);
    lemma_extends_add(t13, tag);
    lemma_extends_trans(s, t13, t14);
    lemma_extends_add(t14, ">.data,\n"@);
    lemma_extends_trans(s, t14, t15);
    lemma_extends_add(t15, "    qt_static_metacall,\n"@);
    lemma_extends_trans(s, t15, t16);
    lemma_extends_add(t16, "    nullptr,\n"@);
    lemma_extends_trans(s, t16, t17);
    lemma_extends_add(t17, "    "@);
    lemma_extends_trans(s, t17, t18);
    lemma_extends_add(t18, cls);
    lemma_extends_trans(s, t18, t19);
    lemma_extends_add(t19, "::qt_staticMetaObjectRelocatingContent<"@);
    lemma_extends_trans(s, t19, t20);
    lemma_extends_add(t20, tag);
    lemma_extends_trans(s, t20, t21);
    lemma_extends_add(t21, ">.metaTypes,\n"@);
    lemma_extends_trans(s, t21, t22);
    lemma_extends_add(t22, "    nullptr\n"@);
    lemma_extends_trans(s, t22, t23);
    lemma_extends_add(t23, "} };\n"@);
    lemma_extends_trans(s, t23, t24);
    lemma_extends_add(t24, "\n"@);
    lemma_extends_trans(s, t24, t25);
    lemma_extends_add(t25, "const QMetaObject* "@);
    lemma_extends_trans(s, t25, t26);
    lemma_extends_add(t26, cls);
    lemma_extends_trans(s, t26, t27);
    lemma_extends_add(t27, "::metaObject() const\n"@);
    lemma_extends_trans(s, t27, t28);
    lemma_extends_add(t28, "{\n"@);
    lemma_extends_trans(s, t28, t29);
    lemma_extends_add(t29, "    return QObject::d_ptr->metaObject ? QObject::d_ptr->dynamicMetaObject() : &staticMetaObject;\n"@);
    lemma_extends_trans(s, t29, t30);
    lemma_extends_add(t30, "}\n"@);
    lemma_extends_trans(s, t30, t31);
    lemma_extends_add(t31, "\n"@);
    lemma_extends_trans(s, t31, t32);
    lemma_extends_add(t32, "void* "@);
    lemma_extends_trans(s, t32, t33);
    lemma_extends_add(t33, cls);
    lemma_extends_trans(s, t33, t34);
    lemma_extends_add(t34, "::qt_metacast(const char* clname)\n"@);
    lemma_extends_trans(s, t34, t35);
    lemma_extends_add(t35, "{\n"@);
    lemma_extends_trans(s, t35, t36);
    lemma_extends_add(t36, "    if (!clname) return nullptr;\n"@);
    lemma_extends_trans(s, t36, t37);
    lemma_extends_add(t37, "    if (!std::strcmp(clname, "@);
    lemma_extends_trans(s, t37, t38);
    lemma_extends_add(t38, cls);
    lemma_extends_trans(s, t38, t39);
    lemma_extends_add(t39, "::qt_staticMetaObjectStaticContent<"@);
    lemma_extends_trans(s, t39, t40);
    lemma_extends_add(t40, tag);
    lemma_extends_trans(s, t40, t41);
    lemma_extends_add(t41, ">.strings))\n"@);
    lemma_extends_trans(s, t41, t42);
    lemma_extends_add(t42, "        return static_cast<void*>(this);\n"@);
    lemma_extends_trans(s, t42, t43);
    lemma_extends_add(t43, "    return "@);
    lemma_extends_trans(s, t43, t44);
    lemma_extends_add(t44, sup);
    lemma_extends_trans(s, t44, t45);
    lemma_extends_add(t45, "::qt_metacast(clname);\n"@);
    lemma_extends_trans(s, t45, t46);
    lemma_extends_add(t46, "}\n"@);
    lemma_extends_trans(s, t46, t47);
    lemma_extends_add(t47, "\n"@);
    lemma_extends_trans(s, t47, t48);
}

proof fn lemma_ext_head(s: Seq<char>, cls: Seq<char>, sup: Seq<char>)
    ensures
        extends(s, metacall_head_text(s, cls, sup)),
{
    lemma_extends_add(s, "int "@);
    let t0 = s + "int "@;
    let t1 = t0 + cls;
    let t2 = t1 + "::qt_metacall(QMetaObject::Call _c, int _id, void** _a)\n"@;
    let t3 = t2 + "{\n"@;
    let t4 = t3 + "    _id = "@;
    let t5 = t4 + sup;
    let t6 = t5 + "::qt_metacall(_c, _id, _a);\n"@;
    let t7 = t6 + "    if (_id < 0) return _id;\n"@;
    lemma_extends_add(t0, cls);
    lemma_extends_trans(s, t0, t1);
    lemma_extends_add(t1, "::qt_metacall(QMetaObject::Call _c, int _id, void** _a)\n"@);
    lemma_extends_trans(s, t1, t2);
    lemma_extends_add(t2, "{\n"@);
    lemma_extends_trans(s, t2, t3);
    lemma_extends_add(t3, "    _id = "@);
    lemma_extends_trans(s, t3, t4);
    lemma_extends_add(t4, sup);
    lemma_extends_trans(s, t4, t5);
    lemma_extends_add(t5, "::qt_metacall(_c, _id, _a);\n"@);
    lemma_extends_trans(s, t5, t6);
    lemma_extends_add(t6, "    if (_id < 0) return _id;\n"@);
    lemma_extends_trans(s, t6, t7);
}

proof fn lemma_ext_methods(s: Seq<char>, total: int)
    ensures
        extends(s, metacall_methods_text(s, total)),
{
    lemma_extends_add(s, "    if (_c == QMetaObject::InvokeMetaMethod) {\n"@);
    let t0 = s + "    if (_c == QMetaObject::InvokeMetaMethod) {\n"@;
    let t1 = t0 + "        if (_id < "@;
    let t2 = t1 + decimal(total as nat);
    let t3 = t2 + ")\n"@;
    let t4 = t3 + "            qt_static_metacall(this, _c, _id, _a);\n"@;
    let t5 = t4 + "        _id -= "@;
    let t6 = t5 + decimal(total as nat);
    let t7 = t6 + ";\n"@;
    let t8 = t7 + "    }\n"@;
    let t9 = t8 + "    if (_c == QMetaObject::RegisterMethodArgumentMetaType) {\n"@;
    let t10 = t9 + "        if (_id < "@;
    let t11 = t10 + decimal(total as nat);
    let t12 = t11 + ")\n"@;
    let t13 = t12 + "            *reinterpret_cast<QMetaType*>(_a[0]) = QMetaType();\n"@;
    let t14 = t13 + "        _id -= "@;
    let t15 = t14 + decimal(total as nat);
    let t16 = t15 + ";\n"@;
    let t17 = t16 + "    }\n"@;
    lemma_extends_add(t0, "        if (_id < "@);
    lemma_extends_trans(s, t0, t1);
    lemma_extends_add(t1, decimal(total as nat));
    lemma_extends_trans(s, t1, t2);
    lemma_extends_add(t2, ")\n"@);
    lemma_extends_trans(s, t2, t3);
    lemma_extends_add(t3, "            qt_static_metacall(this, _c, _id, _a);\n"@);
    lemma_extends_trans(s, t3, t4);
    lemma_extends_add(t4, "        _id -= "@);
    lemma_extends_trans(s, t4, t5);
    lemma_extends_add(t5, decimal(total as nat));
    lemma_extends_trans(s, t5, t6);
    lemma_extends_add(t6, ";\n"@);
    lemma_extends_trans(s, t6, t7);
    lemma_extends_add(t7, "    }\n"@);
    lemma_extends_trans(s, t7, t8);
    lemma_extends_add(t8, "    if (_c == QMetaObject::RegisterMethodArgumentMetaType) {\n"@);
    lemma_extends_trans(s, t8, t9);
    lemma_extends_add(t9, "        if (_id < "@);
    lemma_extends_trans(s, t9, t10);
    lemma_extends_add(t10, decimal(total as nat));
    lemma_extends_trans(s, t10, t11);
    lemma_extends_add(t11, ")\n"@);
    lemma_extends_trans(s, t11, t12);
    lemma_extends_add(t12, "            *reinterpret_cast<QMetaType*>(_a[0]) = QMetaType();\n"@);
    lemma_extends_trans(s, t12, t13);
    lemma_extends_add(t13, "        _id -= "@);
    lemma_extends_trans(s, t13, t14);
    lemma_extends_add(t14, decimal(total as nat));
    lemma_extends_trans(s, t14, t15);
    lemma_extends_add(t15, ";\n"@);
    lemma_extends_trans(s, t15, t16);
    lemma_extends_add(t16, "    }\n"@);
    lemma_extends_trans(s, t16, t17);
}

proof fn lemma_ext_props(s: Seq<char>, count: int)
    ensures
        extends(s, metacall_properties_text(s, count)),
{
    lemma_extends_add(s, "    if (_c == QMetaObject::ReadProperty || _c == QMetaObject::WriteProperty\n"@);
    let t0 = s + "    if (_c == QMetaObject::ReadProperty || _c == QMetaObject::WriteProperty\n"@;
    let t1 = t0 + "            || _c == QMetaObject::ResetProperty || _c == QMetaObject::BindableProperty\n"@;
    let t2 = t1 + "            || _c == QMetaObject::RegisterPropertyMetaType) {\n"@;
    let t3 = t2 + "        qt_static_metacall(this, _c, _id, _a);\n"@;
    let t4 = t3 + "        _id -= "@;
    let t5 = t4 + decimal(count as nat);
    let t6 = t5 + ";\n"@;
    let t7 = t6 + "    }\n"@;
    lemma_extends_add(t0, "            || _c == QMetaObject::ResetProperty || _c == QMetaObject::BindableProperty\n"@);
    lemma_extends_trans(s, t0, t1);
    lemma_extends_add(t1, "            || _c == QMetaObject::RegisterPropertyMetaType) {\n"@);
    lemma_extends_trans(s, t1, t2);
    lemma_extends_add(t2, "        qt_static_metacall(this, _c, _id, _a);\n"@);
    lemma_extends_trans(s, t2, t3);
    lemma_extends_add(t3, "        _id -= "@);
    lemma_extends_trans(s, t3, t4);
    lemma_extends_add(t4, decimal(count as nat));
    lemma_extends_trans(s, t4, t5);
    lemma_extends_add(t5, ";\n"@);
    lemma_extends_trans(s, t5, t6);
    lemma_extends_add(t6, "    }\n"@);
    lemma_extends_trans(s, t6, t7);
}

proof fn lemma_ext_static_head(s: Seq<char>, cls: Seq<char>)
    ensures
        extends(s, static_metacall_head_text(s, cls)),
{
    lemma_extends_add(s, "void "@);
    let t0 = s + "void "@;
    let t1 = t0 + cls;
    let t2 = t1 + "::qt_static_metacall(QObject* _o, QMetaObject::Call _c, int _id, void** _a)\n"@;
    let t3 = t2 + "{\n"@;
    let t4 = t3 + "    (void)_a;\n"@;
    let t5 = t4 + "    auto* _t = static_cast<"@;
    let t6 = t5 + cls;
    let t7 = t6 + "*>(_o);\n"@;
    lemma_extends_add(t0, cls);
    lemma_extends_trans(s, t0, t1);
    lemma_extends_add(t1, "::qt_static_metacall(QObject* _o, QMetaObject::Call _c, int _id, void** _a)\n"@);
    lemma_extends_trans(s, t1, t2);
    lemma_extends_add(t2, "{\n"@);
    lemma_extends_trans(s, t2, t3);
    lemma_extends_add(t3, "    (void)_a;\n"@);
    lemma_extends_trans(s, t3, t4);
    lemma_extends_add(t4, "    auto* _t = static_cast<"@);
    lemma_extends_trans(s, t4, t5);
    lemma_extends_add(t5, cls);
    lemma_extends_trans(s, t5, t6);
    lemma_extends_add(t6, "*>(_o);\n"@);
    lemma_extends_trans(s, t6, t7);
}

proof fn lemma_ext_metacall(s: Seq<char>, info: ClassInfo)
    ensures
        extends(s, metacall_text(s, info)),
        method_total(info) > 0 ==> contains(
            metacall_text(s, info),
            "        _id -= "@ + decimal(method_total(info) as nat) + ";\n"@,
        ) && contains(
            metacall_text(s, info),
            "        if (_id < "@ + decimal(method_total(info) as nat) + ")\n"@,
        ),
        info.properties@.len() > 0 ==> contains(
            metacall_text(s, info),
            "        _id -= "@ + decimal(info.properties@.len()) + ";\n"@,
        ),
{
    let total = method_total(info);
    let s1 = metacall_head_text(s, info.name@, info.super_class@);
    lemma_ext_head(s, info.name@, info.super_class@);
    let s2 = if total > 0 {
        metacall_methods_text(s1, total)
    } else {
        s1
    };
    let s3 = if info.properties@.len() > 0 {
        metacall_properties_text(s2, info.properties@.len() as int)
    } else {
        s2
    };
    lemma_ext_self(s1);
    lemma_ext_self(s2);
    if total > 0 {
        lemma_ext_methods(s1, total);
    }
    if info.properties@.len() > 0 {
        lemma_ext_props(s2, info.properties@.len() as int);
    }
    lemma_extends_trans(s, s1, s2);
    lemma_extends_trans(s, s2, s3);
    let e1 = s3 + "    return _id;\n"@;
    let e2 = e1 + "}\n"@;
    let e3 = e2 + "\n"@;
    lemma_extends_add(s3, "    return _id;\n"@);
    lemma_extends_add(e1, "}\n"@);
    lemma_extends_add(e2, "\n"@);
    lemma_extends_trans(s3, e1, e2);
    lemma_extends_trans(s3, e2, e3);
    lemma_extends_trans(s, s3, e3);
    if total > 0 {
        lemma_total_lines(s1, total);
        let q = "        _id -= "@ + decimal(total as nat) + ";\n"@;
        let r = "        if (_id < "@ + decimal(total as nat) + ")\n"@;
        lemma_extends_contains(s2, s3, q);
        lemma_extends_contains(s3, e3, q);
        lemma_extends_contains(s2, s3, r);
        lemma_extends_contains(s3, e3, r);
    }
    if info.properties@.len() > 0 {
        lemma_count_lines(s2, info.properties@.len() as int);
        let q = "        _id -= "@ + decimal(info.properties@.len()) + ";\n"@;
        lemma_extends_contains(s3, e3, q);
    }
}

proof fn lemma_ext_self(s: Seq<char>)
    ensures
        extends(s, s),
{
    assert(s.take(s.len() as int) =~= s);
}

proof fn lemma_total_lines(s: Seq<char>, total: int)
    ensures
        contains(metacall_methods_text(s, total), "        if (_id < "@ + decimal(total as nat) + ")\n"@),
        contains(metacall_methods_text(s, total), "        _id -= "@ + decimal(total as nat) + ";\n"@),
{
    let t0 = s + "    if (_c == QMetaObject::InvokeMetaMethod) {\n"@;
    let t1 = t0 + "        if (_id < "@;
    let t2 = t1 + decimal(total as nat);
    let t3 = t2 + ")\n"@;
    let t4 = t3 + "            qt_static_metacall(this, _c, _id, _a);\n"@;
    let t5 = t4 + "        _id -= "@;
    let t6 = t5 + decimal(total as nat);
    let t7 = t6 + ";\n"@;
    let t8 = t7 + "    }\n"@;
    let t9 = t8 + "    if (_c == QMetaObject::RegisterMethodArgumentMetaType) {\n"@;
    let t10 = t9 + "        if (_id < "@;
    let t11 = t10 + decimal(total as nat);
    let t12 = t11 + ")\n"@;
    let t13 = t12 + "            *reinterpret_cast<QMetaType*>(_a[0]) = QMetaType();\n"@;
    let t14 = t13 + "        _id -= "@;
    let t15 = t14 + decimal(total as nat);
    let t16 = t15 + ";\n"@;
    let t17 = t16 + "    }\n"@;
    assert(t0 + "        if (_id < "@ + decimal(total as nat) + ")\n"@ =~= t0 + ("        if (_id < "@ + decimal(total as nat) + ")\n"@));
    lemma_ends_contains(t0, "        if (_id < "@ + decimal(total as nat) + ")\n"@);
    lemma_extends_add(t3, "            qt_static_metacall(this, _c, _id, _a);\n"@);
    lemma_extends_contains(t3, t4, "        if (_id < "@ + decimal(total as nat) + ")\n"@);
    lemma_extends_add(t4, "        _id -= "@);
    lemma_extends_contains(t4, t5, "        if (_id < "@ + decimal(total as nat) + ")\n"@);
    lemma_extends_add(t5, decimal(total as nat));
    lemma_extends_contains(t5, t6, "        if (_id < "@ + decimal(total as nat) + ")\n"@);
    lemma_extends_add(t6, ";\n"@);
    lemma_extends_contains(t6, t7, "        if (_id < "@ + decimal(total as nat) + ")\n"@);
    lemma_extends_add(t7, "    }\n"@);
    lemma_extends_contains(t7, t8, "        if (_id < "@ + decimal(total as nat) + ")\n"@);
    lemma_extends_add(t8, "    if (_c == QMetaObject::RegisterMethodArgumentMetaType) {\n"@);
    lemma_extends_contains(t8, t9, "        if (_id < "@ + decimal(total as nat) + ")\n"@);
    lemma_extends_add(t9, "        if (_id < "@);
    lemma_extends_contains(t9, t10, "        if (_id < "@ + decimal(total as nat) + ")\n"@);
    lemma_extends_add(t10, decimal(total as nat));
    lemma_extends_contains(t10, t11, "        if (_id < "@ + decimal(total as nat) + ")\n"@);
    lemma_extends_add(t11, ")\n"@);
    lemma_extends_contains(t11, t12, "        if (_id < "@ + decimal(total as nat) + ")\n"@);
    lemma_extends_add(t12, "            *reinterpret_cast<QMetaType*>(_a[0]) = QMetaType();\n"@);
    lemma_extends_contains(t12, t13, "        if (_id < "@ + decimal(total as nat) + ")\n"@);
    lemma_extends_add(t13, "        _id -= "@);
    lemma_extends_contains(t13, t14, "        if (_id < "@ + decimal(total as nat) + ")\n"@);
    lemma_extends_add(t14, decimal(total as nat));
    lemma_extends_contains(t14, t15, "        if (_id < "@ + decimal(total as nat) + ")\n"@);
    lemma_extends_add(t15, ";\n"@);
    lemma_extends_contains(t15, t16, "        if (_id < "@ + decimal(total as nat) + ")\n"@);
    lemma_extends_add(t16, "    }\n"@);
    lemma_extends_contains(t16, t17, "        if (_id < "@ + decimal(total as nat) + ")\n"@);
    assert(t4 + "        _id -= "@ + decimal(total as nat) + ";\n"@ =~= t4 + ("        _id -= "@ + decimal(total as nat) + ";\n"@));
    lemma_ends_contains(t4, "        _id -= "@ + decimal(total as nat) + ";\n"@);
    lemma_extends_add(t7, "    }\n"@);
    lemma_extends_contains(t7, t8, "        _id -= "@ + decimal(total as nat) + ";\n"@);
    lemma_extends_add(t8, "    if (_c == QMetaObject::RegisterMethodArgumentMetaType) {\n"@);
    lemma_extends_contains(t8, t9, "        _id -= "@ + decimal(total as nat) + ";\n"@);
    lemma_extends_add(t9, "        if (_id < "@);
    lemma_extends_contains(t9, t10, "        _id -= "@ + decimal(total as nat) + ";\n"@);
    lemma_extends_add(t10, decimal(total as nat));
    lemma_extends_contains(t10, t11, "        _id -= "@ + decimal(total as nat) + ";\n"@);
    lemma_extends_add(t11, ")\n"@);
    lemma_extends_contains(t11, t12, "        _id -= "@ + decimal(total as nat) + ";\n"@);
    lemma_extends_add(t12, "            *reinterpret_cast<QMetaType*>(_a[0]) = QMetaType();\n"@);
    lemma_extends_contains(t12, t13, "        _id -= "@ + decimal(total as nat) + ";\n"@);
    lemma_extends_add(t13, "        _id -= "@);
    lemma_extends_contains(t13, t14, "        _id -= "@ + decimal(total as nat) + ";\n"@);
    lemma_extends_add(t14, decimal(total as nat));
    lemma_extends_contains(t14, t15, "        _id -= "@ + decimal(total as nat) + ";\n"@);
    lemma_extends_add(t15, ";\n"@);
    lemma_extends_contains(t15, t16, "        _id -= "@ + decimal(total as nat) + ";\n"@);
    lemma_extends_add(t16, "    }\n"@);
    lemma_extends_contains(t16, t17, "        _id -= "@ + decimal(total as nat) + ";\n"@);
}

proof fn lemma_count_lines(s: Seq<char>, count: int)
    ensures
        contains(metacall_properties_text(s, count), "        _id -= "@ + decimal(count as nat) + ";\n"@),
{
    let t0 = s + "    if (_c == QMetaObject::ReadProperty || _c == QMetaObject::WriteProperty\n"@;
    let t1 = t0 + "            || _c == QMetaObject::ResetProperty || _c == QMetaObject::BindableProperty\n"@;
    let t2 = t1 + "            || _c == QMetaObject::RegisterPropertyMetaType) {\n"@;
    let t3 = t2 + "        qt_static_metacall(this, _c, _id, _a);\n"@;
    let t4 = t3 + "        _id -= "@;
    let t5 = t4 + decimal(count as nat);
    let t6 = t5 + ";\n"@;
    let t7 = t6 + "    }\n"@;
    assert(t3 + "        _id -= "@ + decimal(count as nat) + ";\n"@ =~= t3 + ("        _id -= "@ + decimal(count as nat) + ";\n"@));
    lemma_ends_contains(t3, "        _id -= "@ + decimal(count as nat) + ";\n"@);
    lemma_extends_add(t6, "    }\n"@);
    lemma_extends_contains(t6, t7, "        _id -= "@ + decimal(count as nat) + ";\n"@);
}

/// A piece that starts with the end of what stands before it.
proof fn lemma_piece(base: Seq<char>, head: Seq<char>, rows: Seq<char>, end: Seq<char>)
    ensures
        contains(base + head + rows + end, head + rows + end),
{
    lemma_assoc(base, head, rows);
    lemma_assoc(base, head + rows, end);
    lemma_ends_contains(base, head + rows + end);
}

proof fn lemma_callables(info: ClassInfo)
    ensures
        callables(info).len() == method_total(info),
        signal_calls(info.signals@, info.signals@.len() as int).len() == info.signals@.len(),
        method_calls(info.methods@, "method"@, info.methods@.len() as int).len() == instance_count(
            info.methods@,
            info.methods@.len() as int,
        ),
{
    lemma_signal_cases(Seq::empty(), info.signals@, info.signals@.len() as int);
    lemma_method_calls(info.methods@, "method"@, info.methods@.len() as int);
    lemma_method_calls(info.slots@, "slot"@, info.slots@.len() as int);
}

/// The string table of the class, as it is written.
pub open spec fn string_section(info: ClassInfo) -> Seq<char> {
    "    QtMocHelpers::StringRefStorage qt_stringData {\n"@ + string_rows(
        string_table(info),
        string_table(info).len() as int,
    ) + "    };\n"@
}

/// The method table of the class.
pub open spec fn method_section(info: ClassInfo) -> Seq<char> {
    "    QtMocHelpers::UintData qt_methods {\n"@ + table_rows(
        callables(info),
        string_table(info),
        0,
        callables(info).len() as int,
    ) + "    };\n"@
}

/// The property table of the class.
pub open spec fn property_section(info: ClassInfo) -> Seq<char> {
    "    QtMocHelpers::UintData qt_properties {\n"@ + property_rows(
        info.properties@,
        string_table(info),
        info.properties@.len() as int,
    ) + "    };\n"@
}

proof fn lemma_data(s: Seq<char>, info: ClassInfo)
    ensures
        contains(data_text(s, info), string_section(info)),
        contains(data_text(s, info), method_section(info)),
        contains(data_text(s, info), property_section(info)),
{
    let cls = info.name@;
    let tag = tag_name(cls);
    let table = string_table(info);
    let signals = info.signals@.len() as int;
    let nm = info.methods@.len() as int;
    let ns = info.slots@.len() as int;
    let a = signal_calls(info.signals@, signals);
    let b = method_calls(info.methods@, "method"@, nm);
    let c = method_calls(info.slots@, "slot"@, ns);
    lemma_callables(info);
    lemma_method_calls(info.slots@, "slot"@, ns);
    let h1 = "    QtMocHelpers::StringRefStorage qt_stringData {\n"@;
    let h2 = "    QtMocHelpers::UintData qt_methods {\n"@;
    let h3 = "    QtMocHelpers::UintData qt_properties {\n"@;
    let end = "    };\n"@;
    let x0 = s + "template <> constexpr inline auto "@ + cls + "::qt_create_metaobjectdata<"@ + tag
        + ">()\n"@ + "{\n"@ + "    namespace QMC = QtMocConstants;\n"@;
    let s1 = emit_data_head_text(s, cls, tag);
    assert(s1 == x0 + h1);
    let r1 = string_rows(table, table.len() as int);
    lemma_strings(s1, table, table.len() as int);
    let y1 = s1 + r1 + end;
    lemma_piece(x0, h1, r1, end);
    let x2 = y1 + "\n"@;
    let s2 = x2 + h2;
    lemma_signal_entries(s2, info.signals@, table, signals);
    let ra = table_rows(a, table, 0, signals);
    let rb = table_rows(b, table, signals, b.len() as int);
    let rc = table_rows(c, table, signals + b.len(), c.len() as int);
    lemma_method_entries(s2 + ra, info.methods@, table, "method"@, signals, nm);
    lemma_method_entries(s2 + ra + rb, info.slots@, table, "slot"@, signals + b.len(), ns);
    let s5 = s2 + ra + rb + rc;
    lemma_table_rows_join(a, b, table, 0, b.len() as int);
    lemma_table_rows_join(a + b, c, table, 0, c.len() as int);
    let r2 = table_rows(callables(info), table, 0, callables(info).len() as int);
    assert(r2 == ra + rb + rc);
    lemma_assoc(s2, ra, rb);
    lemma_assoc(s2, ra + rb, rc);
    assert(s5 == s2 + r2);
    lemma_piece(x2, h2, r2, end);
    let x6 = s5 + end;
    let s6 = x6 + h3;
    let r3 = property_rows(info.properties@, table, info.properties@.len() as int);
    lemma_properties(s6, info.properties@, table, info.properties@.len() as int);
    let s7 = s6 + r3;
    lemma_piece(x6, h3, r3, end);
    lemma_ext_tail(s7, cls, tag);
    let d = data_text(s, info);
    assert(d == emit_data_tail_text(s7, cls, tag));
    lemma_tail_starts(s7, cls, tag);
    lemma_extends_contains(s7 + end, d, property_section(info));
    // what came before
    lemma_extends_add(s6, r3);
    lemma_extends_add(x6, h3);
    lemma_extends_trans(x6, s6, s7);
    lemma_extends_trans(x6, s7, d);
    lemma_extends_contains(x6, d, method_section(info));
    lemma_extends_add(s2, r2);
    lemma_extends_add(s5, end);
    lemma_extends_add(x2, h2);
    lemma_extends_add(y1, "\n"@);
    lemma_extends_trans(y1, x2, s2);
    lemma_extends_trans(y1, s2, s5);
    lemma_extends_trans(y1, s5, x6);
    lemma_extends_trans(y1, x6, d);
    lemma_extends_contains(y1, d, string_section(info));
}

proof fn lemma_tail_starts(s: Seq<char>, cls: Seq<char>, tag: Seq<char>)
    ensures
        extends(s + "    };\n"@, emit_data_tail_text(s, cls, tag)),
{
    let t0 = s + "    };\n"@;
    let t1 = t0 + "    QtMocHelpers::UintData qt_enums {};\n"@;
    let t2 = t1 + "\n"@;
    let t3 = t2 + "    return QtMocHelpers::metaObjectData<"@;
    let t4 = t3 + cls;
    let t5 = t4 + ", "@;
    let t6 = t5 + tag;
    let t7 = t6 + ">(QMC::MetaObjectFlag{}, qt_stringData, qt_methods, qt_properties, qt_enums);\n"@;
    let t8 = t7 + "}\n"@;
    let t9 = t8 + "\n"@;
    lemma_ext_self(t0);
    lemma_extends_add(t0, "    QtMocHelpers::UintData qt_enums {};\n"@);
    lemma_extends_trans(t0, t0, t1);
    lemma_extends_add(t1, "\n"@);
    lemma_extends_trans(t0, t1, t2);
    lemma_extends_add(t2, "    return QtMocHelpers::metaObjectData<"@);
    lemma_extends_trans(t0, t2, t3);
    lemma_extends_add(t3, cls);
    lemma_extends_trans(t0, t3, t4);
    lemma_extends_add(t4, ", "@);
    lemma_extends_trans(t0, t4, t5);
    lemma_extends_add(t5, tag);
    lemma_extends_trans(t0, t5, t6);
    lemma_extends_add(t6, ">(QMC::MetaObjectFlag{}, qt_stringData, qt_methods, qt_properties, qt_enums);\n"@);
    lemma_extends_trans(t0, t6, t7);
    lemma_extends_add(t7, "}\n"@);
    lemma_extends_trans(t0, t7, t8);
    lemma_extends_add(t8, "\n"@);
    lemma_extends_trans(t0, t8, t9);
}

/// The switch that calls by number.
pub open spec fn invoke_section(info: ClassInfo) -> Seq<char> {
    "    if (_c == QMetaObject::InvokeMetaMethod) {\n"@ + "        switch (_id) {\n"@ + call_rows(
        callables(info),
        0,
        callables(info).len() as int,
    ) + switch_tail()
}

/// The lookup of the numbers of signals.
pub open spec fn lookup_section(info: ClassInfo) -> Seq<char> {
    "    if (_c == QMetaObject::IndexOfMethod) {\n"@ + lookup_rows(
        info.name@,
        info.signals@,
        info.signals@.len() as int,
    ) + "    }\n"@
}

proof fn lemma_invoke(s: Seq<char>, info: ClassInfo)
    ensures
        extends(s, invoke_text(s, info)),
        contains(invoke_text(s, info), invoke_section(info)),
        info.signals@.len() > 0 ==> contains(invoke_text(s, info), lookup_section(info)),
{
    let signals = info.signals@.len() as int;
    let nm = info.methods@.len() as int;
    let ns = info.slots@.len() as int;
    let a = signal_calls(info.signals@, signals);
    let b = method_calls(info.methods@, "method"@, nm);
    let c = method_calls(info.slots@, "slot"@, ns);
    lemma_callables(info);
    lemma_method_calls(info.slots@, "slot"@, ns);
    let h = "    if (_c == QMetaObject::InvokeMetaMethod) {\n"@ + "        switch (_id) {\n"@;
    let s1 = s + "    if (_c == QMetaObject::InvokeMetaMethod) {\n"@ + "        switch (_id) {\n"@;
    lemma_assoc(
        s,
        "    if (_c == QMetaObject::InvokeMetaMethod) {\n"@,
        "        switch (_id) {\n"@,
    );
    assert(s1 == s + h);
    lemma_signal_cases(s1, info.signals@, signals);
    let ra = call_rows(a, 0, signals);
    let rb = call_rows(b, signals, b.len() as int);
    let rc = call_rows(c, signals + b.len(), c.len() as int);
    lemma_method_cases(s1 + ra, info.methods@, "method"@, signals, nm);
    lemma_method_cases(s1 + ra + rb, info.slots@, "slot"@, signals + b.len(), ns);
    lemma_call_rows_join(a, b, 0, b.len() as int);
    lemma_call_rows_join(a + b, c, 0, c.len() as int);
    let r = call_rows(callables(info), 0, callables(info).len() as int);
    assert(r == ra + rb + rc);
    lemma_assoc(s1, ra, rb);
    lemma_assoc(s1, ra + rb, rc);
    let s4 = s1 + r;
    let s5 = switch_end(s4);
    lemma_switch_end(s4);
    lemma_piece(s, h, r, switch_tail());
    lemma_extends_add(s, h);
    lemma_extends_add(s1, r);
    lemma_extends_add(s4, switch_tail());
    lemma_extends_trans(s, s1, s4);
    lemma_extends_trans(s, s4, s5);
    if signals > 0 {
        let g = "    if (_c == QMetaObject::IndexOfMethod) {\n"@;
        let l = lookup_rows(info.name@, info.signals@, signals);
        lemma_lookups(s5 + g, info.name@, info.signals@, signals);
        let t = s5 + g + l + "    }\n"@;
        assert(invoke_text(s, info) == t);
        lemma_piece(s5, g, l, "    }\n"@);
        lemma_extends_add(s5, g);
        lemma_extends_add(s5 + g, l);
        lemma_extends_add(s5 + g + l, "    }\n"@);
        lemma_extends_trans(s5, s5 + g, s5 + g + l);
        lemma_extends_trans(s5, s5 + g + l, t);
        lemma_extends_trans(s, s5, t);
        lemma_extends_contains(s5, t, invoke_section(info));
    }
}

/// The head of a switch over properties: what is asked for, and where the value
/// stands.
pub open spec fn property_switch(what: Seq<char>, value: Seq<char>) -> Seq<char> {
    "    if (_c == QMetaObject::"@ + what + ") {\n        void* "@ + value
        + " = _a[0];\n        switch (_id) {\n"@
}

/// The switch that reads properties.
pub open spec fn read_section(v: Seq<PropInfo>) -> Seq<char> {
    property_switch("ReadProperty"@, "_v"@) + read_rows(v, v.len() as int) + switch_tail()
}

/// The switch that writes properties.
pub open spec fn write_section(v: Seq<PropInfo>) -> Seq<char> {
    property_switch("WriteProperty"@, "_v"@) + write_rows(v, v.len() as int) + switch_tail()
}

/// The switch that binds properties.
pub open spec fn bindable_section(v: Seq<PropInfo>) -> Seq<char> {
    property_switch("BindableProperty"@, "_b"@) + bindable_rows(v, v.len() as int) + switch_tail()
}

proof fn lemma_head_read(s: Seq<char>)
    ensures
        s + "    if (_c == QMetaObject::ReadProperty) {\n"@ + "        void* _v = _a[0];\n"@
            + "        switch (_id) {\n"@ == s + property_switch("ReadProperty"@, "_v"@),
{
    reveal_strlit("    if (_c == QMetaObject::ReadProperty) {\n");
    reveal_strlit("        void* _v = _a[0];\n");
    reveal_strlit("        switch (_id) {\n");
    reveal_strlit("    if (_c == QMetaObject::");
    reveal_strlit("ReadProperty");
    reveal_strlit(") {\n        void* ");
    reveal_strlit("_v");
    reveal_strlit(" = _a[0];\n        switch (_id) {\n");
    let x = "    if (_c == QMetaObject::ReadProperty) {\n"@;
    let y = "        void* _v = _a[0];\n"@;
    let z = "        switch (_id) {\n"@;
    assert(x + y + z =~= property_switch("ReadProperty"@, "_v"@));
    lemma_assoc(s, x, y);
    lemma_assoc(s, x + y, z);
}

proof fn lemma_head_write(s: Seq<char>)
    ensures
        s + "    if (_c == QMetaObject::WriteProperty) {\n"@ + "        void* _v = _a[0];\n"@
            + "        switch (_id) {\n"@ == s + property_switch("WriteProperty"@, "_v"@),
{
    reveal_strlit("    if (_c == QMetaObject::WriteProperty) {\n");
    reveal_strlit("        void* _v = _a[0];\n");
    reveal_strlit("        switch (_id) {\n");
    reveal_strlit("    if (_c == QMetaObject::");
    reveal_strlit("WriteProperty");
    reveal_strlit(") {\n        void* ");
    reveal_strlit("_v");
    reveal_strlit(" = _a[0];\n        switch (_id) {\n");
    let x = "    if (_c == QMetaObject::WriteProperty) {\n"@;
    let y = "        void* _v = _a[0];\n"@;
    let z = "        switch (_id) {\n"@;
    assert(x + y + z =~= property_switch("WriteProperty"@, "_v"@));
    lemma_assoc(s, x, y);
    lemma_assoc(s, x + y, z);
}

proof fn lemma_head_bindable(s: Seq<char>)
    ensures
        s + "    if (_c == QMetaObject::BindableProperty) {\n"@ + "        void* _b = _a[0];\n"@
            + "        switch (_id) {\n"@ == s + property_switch("BindableProperty"@, "_b"@),
{
    reveal_strlit("    if (_c == QMetaObject::BindableProperty) {\n");
    reveal_strlit("        void* _b = _a[0];\n");
    reveal_strlit("        switch (_id) {\n");
    reveal_strlit("    if (_c == QMetaObject::");
    reveal_strlit("BindableProperty");
    reveal_strlit(") {\n        void* ");
    reveal_strlit("_b");
    reveal_strlit(" = _a[0];\n        switch (_id) {\n");
    let x = "    if (_c == QMetaObject::BindableProperty) {\n"@;
    let y = "        void* _b = _a[0];\n"@;
    let z = "        switch (_id) {\n"@;
    assert(x + y + z =~= property_switch("BindableProperty"@, "_b"@));
    lemma_assoc(s, x, y);
    lemma_assoc(s, x + y, z);
}

proof fn lemma_access(s: Seq<char>, v: Seq<PropInfo>)
    ensures
        extends(s, property_access_text(s, v)),
        contains(property_access_text(s, v), read_section(v)),
        any_writable(v) ==> contains(property_access_text(s, v), write_section(v)),
        any_bindable(v) ==> contains(property_access_text(s, v), bindable_section(v)),
{
    let n = v.len() as int;
    let hr = property_switch("ReadProperty"@, "_v"@);
    let hw = property_switch("WriteProperty"@, "_v"@);
    let hb = property_switch("BindableProperty"@, "_b"@);
    let tail = switch_tail();
    lemma_head_read(s);
    let s1 = s + hr;
    lemma_read(s1, v, n);
    lemma_switch_end(s1 + read_rows(v, n));
    let s2 = s1 + read_rows(v, n) + tail;
    lemma_piece(s, hr, read_rows(v, n), tail);
    lemma_extends_add(s, hr);
    lemma_extends_add(s1, read_rows(v, n));
    lemma_extends_add(s1 + read_rows(v, n), tail);
    lemma_extends_trans(s, s1, s1 + read_rows(v, n));
    lemma_extends_trans(s, s1 + read_rows(v, n), s2);
    lemma_head_write(s2);
    let w = s2 + hw;
    lemma_write(w, v, n);
    lemma_switch_end(w + write_rows(v, n));
    lemma_piece(s2, hw, write_rows(v, n), tail);
    lemma_extends_add(s2, hw);
    lemma_extends_add(w, write_rows(v, n));
    lemma_extends_add(w + write_rows(v, n), tail);
    lemma_extends_trans(s2, w, w + write_rows(v, n));
    lemma_extends_trans(s2, w + write_rows(v, n), w + write_rows(v, n) + tail);
    lemma_ext_self(s2);
    let s3 = if any_writable(v) {
        w + write_rows(v, n) + tail
    } else {
        s2
    };
    lemma_extends_contains(s2, s3, read_section(v));
    lemma_extends_trans(s, s2, s3);
    lemma_head_bindable(s3);
    let b = s3 + hb;
    lemma_bindable(b, v, n);
    lemma_switch_end(b + bindable_rows(v, n));
    lemma_piece(s3, hb, bindable_rows(v, n), tail);
    lemma_extends_add(s3, hb);
    lemma_extends_add(b, bindable_rows(v, n));
    lemma_extends_add(b + bindable_rows(v, n), tail);
    lemma_extends_trans(s3, b, b + bindable_rows(v, n));
    lemma_extends_trans(s3, b + bindable_rows(v, n), b + bindable_rows(v, n) + tail);
    lemma_ext_self(s3);
    let s4 = if any_bindable(v) {
        b + bindable_rows(v, n) + tail
    } else {
        s3
    };
    assert(s4 == property_access_text(s, v));
    lemma_extends_contains(s3, s4, read_section(v));
    if any_writable(v) {
        lemma_extends_contains(s3, s4, write_section(v));
    }
    lemma_extends_trans(s, s3, s4);
}

/// The meta-object code of a class holds its tables and its switches, each
/// complete: the strings, the methods and the properties; one call for each row
/// of the method table, under the number of that row; for each property a read
/// and, where it can be written or bound, a write and a binding, under the number
/// of its row in the property table. It ends with the functions of the signals.
pub proof fn law_tables_and_switches_agree(info: ClassInfo)
    ensures
        contains(source_text(info), string_section(info)),
        contains(source_text(info), method_section(info)),
        contains(source_text(info), property_section(info)),
        callables(info).len() > 0 ==> contains(source_text(info), invoke_section(info)),
        info.signals@.len() > 0 ==> contains(source_text(info), lookup_section(info)),
        info.properties@.len() > 0 ==> contains(source_text(info), read_section(info.properties@)),
        (exists|i: int| 0 <= i < info.properties@.len() && (#[trigger] info.properties@[i]).writable)
            ==> contains(source_text(info), write_section(info.properties@)),
        (exists|i: int| 0 <= i < info.properties@.len() && can_be_bound(#[trigger] info.properties@[i]))
            ==> contains(source_text(info), bindable_section(info.properties@)),
        exists|before: Seq<char>|
            source_text(info) == #[trigger] (before + activations(
                info.name@,
                info.signals@,
                info.signals@.len() as int,
            )),
{
    lemma_source(info);
    let v = info.properties@;
    if exists|i: int| 0 <= i < v.len() && (#[trigger] v[i]).writable {
        assert(any_writable(v));
    }
    if exists|i: int| 0 <= i < v.len() && can_be_bound(#[trigger] v[i]) {
        let i = choose|i: int| 0 <= i < v.len() && can_be_bound(#[trigger] v[i]);
        assert(bindable_surface(v[i]));
        assert(any_bindable(v));
    }
}

/// A call by number takes off as many numbers as there are rows in the method
/// table, and an access to a property as many as there are properties.
pub proof fn law_numbers_are_taken_off(info: ClassInfo)
    ensures
        callables(info).len() > 0 ==> contains(
            source_text(info),
            "        if (_id < "@ + decimal(callables(info).len()) + ")\n"@,
        ) && contains(
            source_text(info),
            "        _id -= "@ + decimal(callables(info).len()) + ";\n"@,
        ),
        info.properties@.len() > 0 ==> contains(
            source_text(info),
            "        _id -= "@ + decimal(info.properties@.len()) + ";\n"@,
        ),
{
    lemma_source(info);
}

/// The meta-object code of a class up to its calls by number.
spec fn static_part(info: ClassInfo) -> Seq<char> {
    let tag = tag_name(info.name@);
    emit_static_object_text(
        data_text(emit_tag_text(""@, tag), info),
        info.name@,
        tag,
        info.super_class@,
    )
}

proof fn lemma_longer()
    ensures
        forall|a: Seq<char>, b: Seq<char>, q: Seq<char>|
            contains(a, q) || contains(b, q) ==> #[trigger] contains(a + b, q),
{
    assert forall|a: Seq<char>, b: Seq<char>, q: Seq<char>|
        contains(a, q) || contains(b, q) implies #[trigger] contains(a + b, q) by {
        crate::build_laws::lemma_contains_add(a, b, q);
    }
}

#[verifier::rlimit(30)]
proof fn lemma_static_lines(s: Seq<char>, cls: Seq<char>, tag: Seq<char>, sup: Seq<char>)
    ensures
        contains(
            emit_static_object_text(s, cls, tag, sup),
            "    QMetaObject::SuperData::link<"@ + sup + "::staticMetaObject>(),\n"@,
        ),
        contains(
            emit_static_object_text(s, cls, tag, sup),
            "    return "@ + sup + "::qt_metacast(clname);\n"@,
        ),
        contains(
            emit_static_object_text(s, cls, tag, sup),
            "Q_CONSTINIT const QMetaObject "@ + cls + "::staticMetaObject = { {\n"@,
        ),
        contains(
            emit_static_object_text(s, cls, tag, sup),
            "const QMetaObject* "@ + cls + "::metaObject() const\n"@,
        ),
        contains(
            emit_static_object_text(s, cls, tag, sup),
            "void* "@ + cls + "::qt_metacast(const char* clname)\n"@,
        ),
{
    let q1 = "Q_CONSTINIT const QMetaObject "@ + cls + "::staticMetaObject = { {\n"@;
    let q2 = "    QMetaObject::SuperData::link<"@ + sup + "::staticMetaObject>(),\n"@;
    let q3 = "const QMetaObject* "@ + cls + "::metaObject() const\n"@;
    let q4 = "void* "@ + cls + "::qt_metacast(const char* clname)\n"@;
    let q5 = "    return "@ + sup + "::qt_metacast(clname);\n"@;
    let p2 = s + "Q_CONSTINIT const QMetaObject "@ + cls + "::staticMetaObject = { {\n"@;
    let p3 = p2 + "    QMetaObject::SuperData::link<"@ + sup + "::staticMetaObject>(),\n"@ + "    "@
        + cls + "::qt_staticMetaObjectStaticContent<"@ + tag + ">.stringdata,\n"@ + "    "@ + cls
        + "::qt_staticMetaObjectStaticContent<"@ + tag + ">.data,\n"@ + "    qt_static_metacall,\n"@
        + "    nullptr,\n"@ + "    "@ + cls + "::qt_staticMetaObjectRelocatingContent<"@ + tag
        + ">.metaTypes,\n"@ + "    nullptr\n"@ + "} };\n"@ + "\n"@;
    let p4 = p3 + "const QMetaObject* "@ + cls + "::metaObject() const\n"@ + "{\n"@
        + "    return QObject::d_ptr->metaObject ? QObject::d_ptr->dynamicMetaObject() : &staticMetaObject;\n"@
        + "}\n"@ + "\n"@;
    let p5 = p4 + "void* "@ + cls + "::qt_metacast(const char* clname)\n"@ + "{\n"@
        + "    if (!clname) return nullptr;\n"@ + "    if (!std::strcmp(clname, "@ + cls
        + "::qt_staticMetaObjectStaticContent<"@ + tag + ">.strings))\n"@
        + "        return static_cast<void*>(this);\n"@;
    assert(s + "Q_CONSTINIT const QMetaObject "@ + cls + "::staticMetaObject = { {\n"@ =~= s + q1);
    assert(p2 + "    QMetaObject::SuperData::link<"@ + sup + "::staticMetaObject>(),\n"@ =~= p2 + q2);
    assert(p3 + "const QMetaObject* "@ + cls + "::metaObject() const\n"@ =~= p3 + q3);
    assert(p4 + "void* "@ + cls + "::qt_metacast(const char* clname)\n"@ =~= p4 + q4);
    assert(p5 + "    return "@ + sup + "::qt_metacast(clname);\n"@ =~= p5 + q5);
    lemma_ends_contains(s, q1);
    lemma_ends_contains(p2, q2);
    lemma_ends_contains(p3, q3);
    lemma_ends_contains(p4, q4);
    lemma_ends_contains(p5, q5);
    lemma_longer();
}

#[verifier::rlimit(30)]
proof fn lemma_metacall_lines(s: Seq<char>, info: ClassInfo)
    ensures
        contains(
            metacall_text(s, info),
            "    _id = "@ + info.super_class@ + "::qt_metacall(_c, _id, _a);\n"@,
        ),
{
    let cls = info.name@;
    let sup = info.super_class@;
    let p = s + "int "@ + cls + "::qt_metacall(QMetaObject::Call _c, int _id, void** _a)\n"@
        + "{\n"@;
    let q = "    _id = "@ + sup + "::qt_metacall(_c, _id, _a);\n"@;
    assert(p + "    _id = "@ + sup + "::qt_metacall(_c, _id, _a);\n"@ =~= p + q);
    lemma_ends_contains(p, q);
    lemma_longer();
    assert(contains(metacall_head_text(s, cls, sup), q));
}

/// The meta-object of a class is its own, and leads to that of its base class:
/// the link, the casts and the calls that the class does not know go there.
pub proof fn law_meta_objects_lead_to_the_base_class(info: ClassInfo)
    ensures
        contains(
            source_text(info),
            "Q_CONSTINIT const QMetaObject "@ + info.name@ + "::staticMetaObject = { {\n"@,
        ),
        contains(
            source_text(info),
            "    QMetaObject::SuperData::link<"@ + info.super_class@ + "::staticMetaObject>(),\n"@,
        ),
        contains(source_text(info), "const QMetaObject* "@ + info.name@ + "::metaObject() const\n"@),
        contains(
            source_text(info),
            "void* "@ + info.name@ + "::qt_metacast(const char* clname)\n"@,
        ),
        contains(
            source_text(info),
            "    return "@ + info.super_class@ + "::qt_metacast(clname);\n"@,
        ),
        contains(
            source_text(info),
            "    _id = "@ + info.super_class@ + "::qt_metacall(_c, _id, _a);\n"@,
        ),
{
    let cls = info.name@;
    let sup = info.super_class@;
    let tag = tag_name(cls);
    let t = source_text(info);
    let s = static_part(info);
    lemma_source(info);
    lemma_static_lines(data_text(emit_tag_text(""@, tag), info), cls, tag, sup);
    lemma_metacall_lines(s, info);
    lemma_extends_contains(
        s,
        t,
        "Q_CONSTINIT const QMetaObject "@ + cls + "::staticMetaObject = { {\n"@,
    );
    lemma_extends_contains(
        s,
        t,
        "    QMetaObject::SuperData::link<"@ + sup + "::staticMetaObject>(),\n"@,
    );
    lemma_extends_contains(s, t, "const QMetaObject* "@ + cls + "::metaObject() const\n"@);
    lemma_extends_contains(s, t, "void* "@ + cls + "::qt_metacast(const char* clname)\n"@);
    lemma_extends_contains(s, t, "    return "@ + sup + "::qt_metacast(clname);\n"@);
    lemma_extends_contains(
        metacall_text(s, info),
        t,
        "    _id = "@ + sup + "::qt_metacall(_c, _id, _a);\n"@,
    );
}

/// Text without quotes, backslashes and control characters stands in a C string
/// as it is.
pub proof fn law_plain_text_is_not_escaped(s: Seq<char>, n: int)
    requires
        0 <= n <= s.len(),
        forall|i: int|
            0 <= i < s.len() ==> (#[trigger] s[i]) as u32 >= 0x20 && s[i] != '"' && s[i] != '\\',
    ensures
        c_escaped(s, n) == s.take(n),
    decreases n,
{
    if n > 0 {
        law_plain_text_is_not_escaped(s, n - 1);
        assert(s[n - 1] as u32 >= 0x20);
        assert(s.take(n - 1) + seq![s[n - 1]] =~= s.take(n));
    } else {
        assert(s.take(0) =~= Seq::<char>::empty());
    }
}

/// Every character of a text is escaped by itself: a backslash stands before
/// quotes and backslashes, line breaks, tabs and carriage returns have letters,
/// and other control characters two digits.
pub proof fn law_characters_are_escaped_one_by_one(s: Seq<char>, c: char)
    ensures
        ({
            let t = s.push(c);
            let added = c_escaped(t, t.len() as int);
            let before = c_escaped(s, s.len() as int);
            &&& c == '\\' ==> added == before + "\\\\"@
            &&& c == '"' ==> added == before + "\\\""@
            &&& c == '\n' ==> added == before + "\\n"@
            &&& c == '\t' ==> added == before + "\\t"@
            &&& c == '\r' ==> added == before + "\\r"@
            &&& (c as u32) < 0x20 && c != '\n' && c != '\t' && c != '\r' ==> added == before + (
            "\\x"@ + hex(c as u32 as nat, 2))
        }),
{
    let t = s.push(c);
    lemma_escaped_prefix(s, c, s.len() as int);
    assert(t[t.len() - 1] == c);
}

proof fn lemma_escaped_prefix(s: Seq<char>, c: char, n: int)
    requires
        0 <= n <= s.len(),
    ensures
        c_escaped(s.push(c), n) == c_escaped(s, n),
    decreases n,
{
    if n > 0 {
        lemma_escaped_prefix(s, c, n - 1);
        assert(s.push(c)[n - 1] == s[n - 1]);
    }
}

proof fn lemma_source(info: ClassInfo)
    ensures
        contains(source_text(info), string_section(info)),
        contains(source_text(info), method_section(info)),
        contains(source_text(info), property_section(info)),
        callables(info).len() > 0 ==> contains(source_text(info), invoke_section(info)) && contains(
            source_text(info),
            "        if (_id < "@ + decimal(callables(info).len()) + ")\n"@,
        ) && contains(
            source_text(info),
            "        _id -= "@ + decimal(callables(info).len()) + ";\n"@,
        ),
        info.signals@.len() > 0 ==> contains(source_text(info), lookup_section(info)),
        info.properties@.len() > 0 ==> contains(source_text(info), read_section(info.properties@))
            && contains(
            source_text(info),
            "        _id -= "@ + decimal(info.properties@.len()) + ";\n"@,
        ),
        any_writable(info.properties@) ==> contains(
            source_text(info),
            write_section(info.properties@),
        ),
        any_bindable(info.properties@) ==> contains(
            source_text(info),
            bindable_section(info.properties@),
        ),
        extends(static_part(info), source_text(info)),
        extends(metacall_text(static_part(info), info), source_text(info)),
        exists|before: Seq<char>|
            source_text(info) == #[trigger] (before + activations(
                info.name@,
                info.signals@,
                info.signals@.len() as int,
            )),
{
    let cls = info.name@;
    let tag = tag_name(cls);
    let v = info.properties@;
    lemma_callables(info);
    let s1 = emit_tag_text(""@, tag);
    let s2 = data_text(s1, info);
    lemma_data(s1, info);
    let s3 = emit_static_object_text(s2, cls, tag, info.super_class@);
    lemma_ext_static(s2, cls, tag, info.super_class@);
    let s4 = metacall_text(s3, info);
    lemma_ext_metacall(s3, info);
    let s5 = static_metacall_head_text(s4, cls);
    lemma_ext_static_head(s4, cls);
    let s6 = if method_total(info) > 0 {
        invoke_text(s5, info)
    } else {
        s5
    };
    lemma_ext_self(s5);
    lemma_invoke(s5, info);
    let s7 = if v.len() > 0 {
        property_access_text(s6, v)
    } else {
        s6
    };
    lemma_ext_self(s6);
    lemma_access(s6, v);
    let e1 = s7 + "}\n"@;
    let e2 = e1 + "\n"@;
    lemma_bodies(e2, cls, info.signals@, info.signals@.len() as int);
    let t = e2 + activations(cls, info.signals@, info.signals@.len() as int);
    assert(source_text(info) == t);
    lemma_extends_add(s7, "}\n"@);
    lemma_extends_add(e1, "\n"@);
    lemma_extends_add(e2, activations(cls, info.signals@, info.signals@.len() as int));
    lemma_extends_trans(s7, e1, e2);
    lemma_extends_trans(s7, e2, t);
    lemma_extends_trans(s6, s7, t);
    lemma_extends_trans(s5, s6, t);
    lemma_extends_trans(s4, s5, t);
    lemma_extends_trans(s3, s4, t);
    lemma_extends_trans(s2, s3, t);
    lemma_extends_contains(s2, t, string_section(info));
    lemma_extends_contains(s2, t, method_section(info));
    lemma_extends_contains(s2, t, property_section(info));
    if method_total(info) > 0 {
        lemma_extends_contains(s6, t, invoke_section(info));
        lemma_extends_contains(
            s4,
            t,
            "        if (_id < "@ + decimal(method_total(info) as nat) + ")\n"@,
        );
        lemma_extends_contains(
            s4,
            t,
            "        _id -= "@ + decimal(method_total(info) as nat) + ";\n"@,
        );
    }
    if info.signals@.len() > 0 {
        crate::meta::lemma_instance_count(info.methods@, info.methods@.len() as int);
        crate::meta::lemma_instance_count(info.slots@, info.slots@.len() as int);
        lemma_extends_contains(s6, t, lookup_section(info));
    }
    if v.len() > 0 {
        lemma_extends_contains(s7, t, read_section(v));
        lemma_extends_contains(s4, t, "        _id -= "@ + decimal(v.len()) + ";\n"@);
    }
    if any_writable(v) {
        lemma_extends_contains(s7, t, write_section(v));
    }
    if any_bindable(v) {
        lemma_extends_contains(s7, t, bindable_section(v));
    }
}

/// The values of the language have meta-types of their own as results; of any
/// other result the C++ type is noted.
pub proof fn law_results_have_meta_types(t: Seq<char>)
    ensures
        return_metatype("void"@) == "QMetaType::Void"@,
        t == "bool"@ ==> return_metatype(t) == "QMetaType::Bool"@,
        t == "qint64"@ ==> return_metatype(t) == "QMetaType::LongLong"@,
        t == "double"@ ==> return_metatype(t) == "QMetaType::Double"@,
        t == "::cute::String"@ || t == "QString"@ ==> return_metatype(t) == "QMetaType::QString"@,
        !seq![
            "void"@,
            "bool"@,
            "qint64"@,
            "double"@,
            "::cute::String"@,
            "QString"@,
        ].contains(t) ==> return_metatype(t) == "QMetaType::Void /* TODO ret-meta for "@ + t
            + " */"@,
{
    reveal_strlit("void");
    reveal_strlit("bool");
    reveal_strlit("qint64");
    reveal_strlit("double");
    reveal_strlit("::cute::String");
    reveal_strlit("QString");
    assert("void"@[0] != "bool"@[0]);
    assert("qint64"@[0] != "double"@[0]);
    assert("::cute::String"@[0] == ':' && "QString"@[0] == 'Q' && "qint64"@[0] == 'q');
    let v = seq!["void"@, "bool"@, "qint64"@, "double"@, "::cute::String"@, "QString"@];
    assert(v[0] == "void"@ && v[1] == "bool"@ && v[2] == "qint64"@ && v[3] == "double"@ && v[4]
        == "::cute::String"@ && v[5] == "QString"@);
}

} // verus!
