//! Qt meta-object text for a class: the `qt_create_metaobjectdata`
//! specialization, the static meta-object, the four dispatch functions and the
//! signal bodies that Qt's `Q_OBJECT` macro leaves to be defined.
//!
//! Each emitter takes the text so far and returns it with its own part
//! appended; the `*_text` function beside it says which part that is.

use crate::text::{
    add_missing, added, append_hex, chars_of, decimal, decimal_string, hex, join, joined,
    lemma_views_push, same, views,
};
use vstd::prelude::*;
use vstd::string::*;

verus! {

#[derive(Debug, Clone)]
pub struct ClassInfo {
    pub name: String,
    pub super_class: String,
    pub properties: Vec<PropInfo>,
    pub signals: Vec<SignalInfo>,
    pub methods: Vec<MethodInfo>,
    pub slots: Vec<MethodInfo>,
}

#[derive(Debug, Clone, Copy, PartialEq, Eq, Structural)]
pub enum PropKind {
    /// Plain storage: `prop x : T`.
    Plain,
    /// Writable bindable storage: `prop x : T, bindable`.
    Bindable,
    /// Derived, read-only, with tracked dependencies: `prop x : T, bind { e }`.
    Bind,
    /// Derived, read-only, evaluated at every read: `prop x : T, fresh { e }`.
    Fresh,
}

#[derive(Debug, Clone)]
pub struct PropInfo {
    pub name: String,
    pub setter: String,
    pub cpp_type: String,
    /// `QMetaType::QString`, `QMetaType::Bool`, and so on.
    pub qmetatype: &'static str,
    pub pass_by_const_ref: bool,
    pub readable: bool,
    pub writable: bool,
    pub notify_signal_idx: Option<usize>,
    pub notify_signal_name: Option<String>,
    pub kind: PropKind,
    /// The `bindable<X>()` method; present where the property has a bindable
    /// surface.
    pub bindable_getter: Option<String>,
    /// A `ModelList<T>` property: a constant pointer to a heap-allocated model.
    pub is_model_list: bool,
}

#[derive(Debug, Clone)]
pub struct SignalInfo {
    pub name: String,
    pub params: Vec<ParamInfo>,
}

#[derive(Debug, Clone)]
pub struct MethodInfo {
    pub name: String,
    pub params: Vec<ParamInfo>,
    pub return_type: String,
    /// A class-scoped function without a receiver. The method table leaves
    /// these out: they cannot be invoked through a meta-object instance.
    pub is_static: bool,
}

#[derive(Debug, Clone)]
pub struct ParamInfo {
    pub name: String,
    pub cpp_type: String,
    pub qmetatype: String,
}

#[derive(Debug, Clone)]
pub struct MetaSection {
    /// Spliced into the class body: empty, as `Q_OBJECT` declares everything.
    pub header_decls: String,
    /// Appended to the `.cpp` file.
    pub source_defs: String,
}

/// The property is backed by storage with a working `QBindable`.
pub open spec fn bindable_surface(p: PropInfo) -> bool {
    p.kind == PropKind::Bindable || p.kind == PropKind::Bind
}

impl PropInfo {
    /// Whether the property's storage exposes a working `QBindable<T>`.
    /// A `fresh` property has one without subscriptions, so it does not count.
    pub fn has_bindable_surface(&self) -> (r: bool)
        ensures
            r == bindable_surface(*self),
    {
        self.kind == PropKind::Bindable || self.kind == PropKind::Bind
    }
}

/// What the emitter needs of a class: every bindable property names its
/// getter, and the entries of the method table can be counted.
pub open spec fn well_formed(info: ClassInfo) -> bool {
    &&& forall|i: int|
        0 <= i < info.properties@.len() && bindable_surface(info.properties@[i])
            ==> (#[trigger] info.properties@[i]).bindable_getter is Some
    &&& info.signals@.len() + info.methods@.len() + info.slots@.len() <= usize::MAX
}

// ---- small pieces -----------------------------------------------------------

/// One character inside a C string literal.
pub open spec fn c_char(c: char) -> Seq<char> {
    if c == '\\' {
        "\\\\"@
    } else if c == '"' {
        "\\\""@
    } else if c == '\n' {
        "\\n"@
    } else if c == '\t' {
        "\\t"@
    } else if c == '\r' {
        "\\r"@
    } else if (c as u32) < 0x20 {
        "\\x"@ + hex(c as u32 as nat, 2)
    } else {
        seq![c]
    }
}

/// The first `n` characters of `s`, escaped for a C string literal.
pub open spec fn c_escaped(s: Seq<char>, n: int) -> Seq<char>
    decreases n,
{
    if n <= 0 {
        Seq::empty()
    } else {
        c_escaped(s, n - 1) + c_char(s[n - 1])
    }
}

/// `s` as the inside of a C string literal.
pub fn escape_for_c(s: &str) -> (r: String)
    ensures
        r@ == c_escaped(s@, s@.len() as int),
{
    let v = chars_of(s);
    let mut out = String::new();
    let mut i: usize = 0;
    while i < v.len()
        invariant
            i <= v@.len(),
            out@ == c_escaped(v@, i as int),
        decreases v@.len() - i,
    {
        let c: char = v[i];
        let ghost before = out@;
        if c == '\\' {
            out.append("\\\\");
        } else if c == '"' {
            out.append("\\\"");
        } else if c == '\n' {
            out.append("\\n");
        } else if c == '\t' {
            out.append("\\t");
        } else if c == '\r' {
            out.append("\\r");
        } else if (c as u32) < 0x20 {
            out.append("\\x");
            append_hex(&mut out, c as u32 as u64, 2);
            assert(out@ =~= before + c_char(c));
        } else {
            out.push(c);
            assert(out@ =~= before + c_char(c));
        }
        i += 1;
    }
    out
}

/// The `{type, name index}` cells of a parameter list.
pub open spec fn param_cells(params: Seq<ParamInfo>, empty_idx: int) -> Seq<Seq<char>> {
    Seq::new(
        params.len(),
        |i: int| "{"@ + params[i].qmetatype@ + ", "@ + decimal(empty_idx as nat) + "}"@,
    )
}

/// The C++ types of a parameter list.
pub open spec fn param_types(params: Seq<ParamInfo>) -> Seq<Seq<char>> {
    Seq::new(params.len(), |i: int| params[i].cpp_type@)
}

/// The names `a0`, `a1`, ... under which unpacked arguments are passed on.
pub open spec fn arg_names(n: nat) -> Seq<Seq<char>> {
    Seq::new(n, |i: int| "a"@ + decimal(i as nat))
}

/// The `type name` pairs of a parameter list.
pub open spec fn param_decls(params: Seq<ParamInfo>) -> Seq<Seq<char>> {
    Seq::new(params.len(), |i: int| params[i].cpp_type@ + " "@ + params[i].name@)
}

/// The untyped addresses of the parameters.
pub open spec fn param_addresses(params: Seq<ParamInfo>) -> Seq<Seq<char>> {
    Seq::new(
        params.len(),
        |i: int| "const_cast<void*>(static_cast<const void*>(&"@ + params[i].name@ + "))"@,
    )
}

/// The parameter array of a method or signal entry.
pub open spec fn params_array(params: Seq<ParamInfo>, empty_idx: int) -> Seq<char> {
    "{{"@ + join(param_cells(params, empty_idx), ", "@) + "}}"@
}

/// `{{ {type, nameIdx}, ... }}`: the parameter array of a method or signal
/// entry, in the double-brace form that `std::array` needs.
pub fn fn_params_array(params: &Vec<ParamInfo>, empty_idx: usize) -> (r: String)
    ensures
        r@ == params_array(params@, empty_idx as int),
{
    let mut parts: Vec<String> = Vec::new();
    let mut i: usize = 0;
    while i < params.len()
        invariant
            i <= params@.len(),
            views(parts@) == param_cells(params@, empty_idx as int).take(i as int),
        decreases params@.len() - i,
    {
        let idx = decimal_string(empty_idx as u64);
        let cell = "{".to_owned().concat(params[i].qmetatype.as_str()).concat(", ").concat(
            idx.as_str(),
        ).concat("}");
        proof {
            lemma_views_push(parts@, cell);
        }
        parts.push(cell);
        i += 1;
        assert(views(parts@) =~= param_cells(params@, empty_idx as int).take(i as int));
    }
    assert(views(parts@) =~= param_cells(params@, empty_idx as int));
    let list = joined(&parts, ", ");
    "{{".to_owned().concat(list.as_str()).concat("}}")
}

/// The C++ types of a parameter list, between commas.
fn type_list(params: &Vec<ParamInfo>) -> (r: String)
    ensures
        r@ == join(param_types(params@), ", "@),
{
    let mut parts: Vec<String> = Vec::new();
    let mut i: usize = 0;
    while i < params.len()
        invariant
            i <= params@.len(),
            views(parts@) == param_types(params@).take(i as int),
        decreases params@.len() - i,
    {
        let part = params[i].cpp_type.clone();
        proof {
            lemma_views_push(parts@, part);
        }
        parts.push(part);
        i += 1;
        assert(views(parts@) =~= param_types(params@).take(i as int));
    }
    assert(views(parts@) =~= param_types(params@));
    joined(&parts, ", ")
}

/// `a0, a1, ...`: `n` argument names.
fn arg_list(n: usize) -> (r: String)
    ensures
        r@ == join(arg_names(n as nat), ", "@),
{
    let mut parts: Vec<String> = Vec::new();
    let mut i: usize = 0;
    while i < n
        invariant
            i <= n,
            views(parts@) == arg_names(n as nat).take(i as int),
        decreases n - i,
    {
        let part = "a".to_owned().concat(decimal_string(i as u64).as_str());
        proof {
            lemma_views_push(parts@, part);
        }
        parts.push(part);
        i += 1;
        assert(views(parts@) =~= arg_names(n as nat).take(i as int));
    }
    assert(views(parts@) =~= arg_names(n as nat));
    joined(&parts, ", ")
}

/// The `type name` pairs of a parameter list, between commas.
fn decl_list(params: &Vec<ParamInfo>) -> (r: String)
    ensures
        r@ == join(param_decls(params@), ", "@),
{
    let mut parts: Vec<String> = Vec::new();
    let mut i: usize = 0;
    while i < params.len()
        invariant
            i <= params@.len(),
            views(parts@) == param_decls(params@).take(i as int),
        decreases params@.len() - i,
    {
        let part = params[i].cpp_type.clone().concat(" ").concat(params[i].name.as_str());
        proof {
            lemma_views_push(parts@, part);
        }
        parts.push(part);
        i += 1;
        assert(views(parts@) =~= param_decls(params@).take(i as int));
    }
    assert(views(parts@) =~= param_decls(params@));
    joined(&parts, ", ")
}

/// The untyped addresses of the parameters, between commas.
fn address_list(params: &Vec<ParamInfo>) -> (r: String)
    ensures
        r@ == join(param_addresses(params@), ", "@),
{
    let mut parts: Vec<String> = Vec::new();
    let mut i: usize = 0;
    while i < params.len()
        invariant
            i <= params@.len(),
            views(parts@) == param_addresses(params@).take(i as int),
        decreases params@.len() - i,
    {
        let part = "const_cast<void*>(static_cast<const void*>(&".to_owned().concat(params[i].name.as_str()).concat("))");
        proof {
            lemma_views_push(parts@, part);
        }
        parts.push(part);
        i += 1;
        assert(views(parts@) =~= param_addresses(params@).take(i as int));
    }
    assert(views(parts@) =~= param_addresses(params@));
    joined(&parts, ", ")
}

/// `R(T0, T1, ...)`.
pub open spec fn method_template_text(return_type: Seq<char>, params: Seq<ParamInfo>) -> Seq<char> {
    return_type + "("@ + join(param_types(params), ", "@) + ")"@
}

/// The function type of a method.
pub fn method_template(return_type: &str, params: &Vec<ParamInfo>) -> (r: String)
    ensures
        r@ == method_template_text(return_type@, params@),
{
    return_type.to_owned().concat("(").concat(type_list(params).as_str()).concat(")")
}

/// `void(T0, T1, ...)`.
pub open spec fn signal_template_text(params: Seq<ParamInfo>) -> Seq<char> {
    "void("@ + join(param_types(params), ", "@) + ")"@
}

/// The function type of a signal.
pub fn signal_template(params: &Vec<ParamInfo>) -> (r: String)
    ensures
        r@ == signal_template_text(params@),
{
    "void(".to_owned().concat(type_list(params).as_str()).concat(")")
}

/// The meta-type that a method entry gives for a return type.
pub open spec fn return_metatype(return_type: Seq<char>) -> Seq<char> {
    if return_type == "void"@ {
        "QMetaType::Void"@
    } else if return_type == "bool"@ {
        "QMetaType::Bool"@
    } else if return_type == "qint64"@ {
        "QMetaType::LongLong"@
    } else if return_type == "double"@ {
        "QMetaType::Double"@
    } else if return_type == "::cute::String"@ || return_type == "QString"@ {
        "QMetaType::QString"@
    } else {
        "QMetaType::Void /* TODO ret-meta for "@ + return_type + " */"@
    }
}

pub fn qmetatype_for_return(return_type: &str) -> (r: String)
    ensures
        r@ == return_metatype(return_type@),
{
    if same(return_type, "void") {
        "QMetaType::Void".to_owned()
    } else if same(return_type, "bool") {
        "QMetaType::Bool".to_owned()
    } else if same(return_type, "qint64") {
        "QMetaType::LongLong".to_owned()
    } else if same(return_type, "double") {
        "QMetaType::Double".to_owned()
    } else if same(return_type, "::cute::String") || same(return_type, "QString") {
        "QMetaType::QString".to_owned()
    } else {
        "QMetaType::Void /* TODO ret-meta for ".to_owned().concat(return_type).concat(" */")
    }
}

/// The storage type behind a C++ type: `::cute::String` stands for `QString`.
pub open spec fn storage_type(cpp_type: Seq<char>) -> Seq<char> {
    if cpp_type == "::cute::String"@ {
        "QString"@
    } else {
        cpp_type
    }
}

pub fn prop_cpp_type_for_template(cpp_type: &str) -> (r: String)
    ensures
        r@ == storage_type(cpp_type@),
{
    if same(cpp_type, "::cute::String") {
        "QString".to_owned()
    } else {
        cpp_type.to_owned()
    }
}

/// The declarations that unpack the first `n` parameters from the argument
/// array, whose slot 0 is the return value.
pub open spec fn unpack_text(params: Seq<ParamInfo>, n: int) -> Seq<char>
    decreases n,
{
    if n <= 0 {
        Seq::empty()
    } else {
        unpack_text(params, n - 1) + "auto& a"@ + decimal((n - 1) as nat)
            + " = *reinterpret_cast<"@ + storage_type(params[n - 1].cpp_type@) + "*>(_a["@
            + decimal(n as nat) + "]); "@
    }
}

pub fn unpack_method_args(params: &Vec<ParamInfo>) -> (r: String)
    ensures
        r@ == unpack_text(params@, params@.len() as int),
{
    let mut out = String::new();
    let mut i: usize = 0;
    while i < params.len()
        invariant
            i <= params@.len(),
            out@ == unpack_text(params@, i as int),
        decreases params@.len() - i,
    {
        let raw = prop_cpp_type_for_template(params[i].cpp_type.as_str());
        out = out.concat("auto& a").concat(decimal_string(i as u64).as_str()).concat(
            " = *reinterpret_cast<",
        ).concat(raw.as_str()).concat("*>(_a[").concat(decimal_string((i + 1) as u64).as_str()).concat(
            "]); ",
        );
        i += 1;
    }
    out
}

// ---- the string table ---------------------------------------------------------

/// The position of `name` in `table`.
pub open spec fn table_index(table: Seq<Seq<char>>, name: Seq<char>) -> int
    decreases table.len(),
{
    if table.len() == 0 || table[0] == name {
        0
    } else {
        1 + table_index(table.drop_first(), name)
    }
}

pub open spec fn intern_signals(table: Seq<Seq<char>>, v: Seq<SignalInfo>, n: int) -> Seq<Seq<char>>
    decreases n,
{
    if n <= 0 {
        table
    } else {
        added(intern_signals(table, v, n - 1), v[n - 1].name@)
    }
}

pub open spec fn intern_methods(table: Seq<Seq<char>>, v: Seq<MethodInfo>, n: int) -> Seq<Seq<char>>
    decreases n,
{
    if n <= 0 {
        table
    } else if v[n - 1].is_static {
        intern_methods(table, v, n - 1)
    } else {
        added(intern_methods(table, v, n - 1), v[n - 1].name@)
    }
}

pub open spec fn intern_props(table: Seq<Seq<char>>, v: Seq<PropInfo>, n: int) -> Seq<Seq<char>>
    decreases n,
{
    if n <= 0 {
        table
    } else {
        added(intern_props(table, v, n - 1), v[n - 1].name@)
    }
}

/// The string table of a class: its name, its signals' names, the empty
/// string, and the names of its methods, slots and properties, each once and
/// in order of first use.
pub open spec fn string_table(info: ClassInfo) -> Seq<Seq<char>> {
    let t0 = added(Seq::empty(), info.name@);
    let t1 = intern_signals(t0, info.signals@, info.signals@.len() as int);
    let t2 = added(t1, ""@);
    let t3 = intern_methods(t2, info.methods@, info.methods@.len() as int);
    let t4 = intern_methods(t3, info.slots@, info.slots@.len() as int);
    intern_props(t4, info.properties@, info.properties@.len() as int)
}

/// The position of `name` in the table.
fn index_in_table(table: &Vec<String>, name: &str) -> (r: usize)
    ensures
        r == table_index(views(table@), name@),
{
    let ghost t = views(table@);
    let n: usize = table.len();
    let mut i: usize = 0;
    assert(t.subrange(0, n as int) =~= t);
    while i < n
        invariant
            i <= n,
            n == table@.len(),
            t == views(table@),
            table_index(t, name@) == i + table_index(t.subrange(i as int, n as int), name@),
        decreases n - i,
    {
        if same(table[i].as_str(), name) {
            return i;
        }
        assert(t.subrange(i as int, n as int).drop_first() =~= t.subrange(i + 1, n as int));
        i += 1;
    }
    i
}

fn build_string_table(info: &ClassInfo) -> (r: Vec<String>)
    ensures
        views(r@) == string_table(*info),
{
    let mut table: Vec<String> = Vec::new();
    assert(views(table@) =~= Seq::<Seq<char>>::empty());
    table = add_missing(table, info.name.as_str());
    let ghost t0 = views(table@);
    let mut i: usize = 0;
    while i < info.signals.len()
        invariant
            i <= info.signals@.len(),
            views(table@) == intern_signals(t0, info.signals@, i as int),
        decreases info.signals@.len() - i,
    {
        table = add_missing(table, info.signals[i].name.as_str());
        i += 1;
    }
    table = add_missing(table, "");
    table = intern_method_names(table, &info.methods);
    table = intern_method_names(table, &info.slots);
    let ghost t4 = views(table@);
    let mut k: usize = 0;
    while k < info.properties.len()
        invariant
            k <= info.properties@.len(),
            views(table@) == intern_props(t4, info.properties@, k as int),
        decreases info.properties@.len() - k,
    {
        table = add_missing(table, info.properties[k].name.as_str());
        k += 1;
    }
    table
}

fn intern_method_names(table: Vec<String>, v: &Vec<MethodInfo>) -> (r: Vec<String>)
    ensures
        views(r@) == intern_methods(views(table@), v@, v@.len() as int),
{
    let ghost t = views(table@);
    let mut table = table;
    let mut i: usize = 0;
    while i < v.len()
        invariant
            i <= v@.len(),
            views(table@) == intern_methods(t, v@, i as int),
        decreases v@.len() - i,
    {
        if !v[i].is_static {
            table = add_missing(table, v[i].name.as_str());
        }
        i += 1;
    }
    table
}

// ---- counting -------------------------------------------------------------------

/// The number of methods among the first `n` that the method table holds.
pub open spec fn instance_count(v: Seq<MethodInfo>, n: int) -> int
    decreases n,
{
    if n <= 0 {
        0
    } else if v[n - 1].is_static {
        instance_count(v, n - 1)
    } else {
        instance_count(v, n - 1) + 1
    }
}

pub proof fn lemma_instance_count(v: Seq<MethodInfo>, n: int)
    requires
        0 <= n,
    ensures
        0 <= instance_count(v, n) <= n,
    decreases n,
{
    if n > 0 {
        lemma_instance_count(v, n - 1);
    }
}

fn count_instance(v: &Vec<MethodInfo>) -> (r: usize)
    ensures
        r == instance_count(v@, v@.len() as int),
        r <= v@.len(),
{
    let mut n: usize = 0;
    let mut i: usize = 0;
    while i < v.len()
        invariant
            i <= v@.len(),
            n == instance_count(v@, i as int),
            n <= i,
        decreases v@.len() - i,
    {
        if !v[i].is_static {
            n += 1;
        }
        i += 1;
    }
    n
}

/// The number of entries of the method table.
pub open spec fn method_total(info: ClassInfo) -> int {
    info.signals@.len() + instance_count(info.methods@, info.methods@.len() as int) + instance_count(
        info.slots@,
        info.slots@.len() as int,
    )
}

pub open spec fn any_writable(v: Seq<PropInfo>) -> bool {
    exists|i: int| 0 <= i < v.len() && (#[trigger] v[i]).writable
}

pub open spec fn any_bindable(v: Seq<PropInfo>) -> bool {
    exists|i: int| 0 <= i < v.len() && bindable_surface(#[trigger] v[i])
}

fn has_writable(v: &Vec<PropInfo>) -> (r: bool)
    ensures
        r == any_writable(v@),
{
    let mut i: usize = 0;
    while i < v.len()
        invariant
            i <= v@.len(),
            forall|j: int| 0 <= j < i ==> !(#[trigger] v@[j]).writable,
        decreases v@.len() - i,
    {
        if v[i].writable {
            assert(v@[i as int].writable);
            return true;
        }
        i += 1;
    }
    false
}

fn has_bindable(v: &Vec<PropInfo>) -> (r: bool)
    ensures
        r == any_bindable(v@),
{
    let mut i: usize = 0;
    while i < v.len()
        invariant
            i <= v@.len(),
            forall|j: int| 0 <= j < i ==> !bindable_surface(#[trigger] v@[j]),
        decreases v@.len() - i,
    {
        if v[i].has_bindable_surface() {
            assert(bindable_surface(v@[i as int]));
            return true;
        }
        i += 1;
    }
    false
}

// ---- the meta-object data -----------------------------------------------------

/// One line of the string table.
pub open spec fn table_line_text(s: Seq<char>, table: Seq<Seq<char>>, i: int) -> Seq<char> {
    s
        + "        \""@
        + c_escaped(table[i], table[i].len() as int)
        + "\",\n"@
}

pub fn table_line(s: String, table: &Vec<String>, i: usize) -> (r: String)
    requires
        i < table@.len(),
    ensures
        r@ == table_line_text(s@, views(table@), i as int),
{
    s
        .concat("        \"")
        .concat(escape_for_c(table[i].as_str()).as_str())
        .concat("\",\n")
}

/// The lines of the string table.
pub open spec fn table_lines_text(s: Seq<char>, table: Seq<Seq<char>>, n: int) -> Seq<char>
    decreases n,
{
    if n <= 0 {
        s
    } else {
        table_line_text(table_lines_text(s, table, n - 1), table, n - 1)
    }
}

pub fn table_lines(s: String, table: &Vec<String>) -> (r: String)
    ensures
        r@ == table_lines_text(s@, views(table@), table@.len() as int),
{
    let ghost start = s@;
    let mut s = s;
    let mut i: usize = 0;
    while i < table.len()
        invariant
            i <= table@.len(),
            s@ == table_lines_text(start, views(table@), i as int),
        decreases table@.len() - i,
    {
        s = table_line(s, table, i);
        i += 1;
    }
    s
}

/// The parameter array of an entry, behind a comma, where there are parameters.
pub open spec fn entry_params(params: Seq<ParamInfo>, empty_idx: int) -> Seq<char> {
    if params.len() == 0 {
        ""@
    } else {
        ", "@ + params_array(params, empty_idx)
    }
}

fn render_entry_params(params: &Vec<ParamInfo>, empty_idx: usize) -> (r: String)
    ensures
        r@ == entry_params(params@, empty_idx as int),
{
    if params.len() == 0 {
        "".to_owned()
    } else {
        ", ".to_owned().concat(fn_params_array(params, empty_idx).as_str())
    }
}

/// The method-table entry of signal `i`.
pub open spec fn signal_entry_text(
    s: Seq<char>,
    v: Seq<SignalInfo>,
    table: Seq<Seq<char>>,
    i: int,
) -> Seq<char> {
    s
        + "        // signal "@
        + decimal(i as nat)
        + ": "@
        + v[i].name@
        + "\n"@
        + "        QtMocHelpers::SignalData<"@
        + signal_template_text(v[i].params@)
        + ">("@
        + decimal(table_index(table, v[i].name@) as nat)
        + ", "@
        + decimal(table_index(table, ""@) as nat)
        + ", QMC::AccessPublic, QMetaType::Void"@
        + entry_params(v[i].params@, table_index(table, ""@))
        + "),\n"@
}

pub fn signal_entry(s: String, v: &Vec<SignalInfo>, table: &Vec<String>, i: usize) -> (r: String)
    requires
        i < v@.len(),
    ensures
        r@ == signal_entry_text(s@, v@, views(table@), i as int),
{
    s
        .concat("        // signal ")
        .concat(decimal_string(i as u64).as_str())
        .concat(": ")
        .concat(v[i].name.as_str())
        .concat("\n")
        .concat("        QtMocHelpers::SignalData<")
        .concat(signal_template(&v[i].params).as_str())
        .concat(">(")
        .concat(decimal_string(index_in_table(table, v[i].name.as_str()) as u64).as_str())
        .concat(", ")
        .concat(decimal_string(index_in_table(table, "") as u64).as_str())
        .concat(", QMC::AccessPublic, QMetaType::Void")
        .concat(render_entry_params(&v[i].params, index_in_table(table, "")).as_str())
        .concat("),\n")
}

/// The entries of the signals.
pub open spec fn signal_entries_text(
    s: Seq<char>,
    v: Seq<SignalInfo>,
    table: Seq<Seq<char>>,
    n: int,
) -> Seq<char>
    decreases n,
{
    if n <= 0 {
        s
    } else {
        signal_entry_text(signal_entries_text(s, v, table, n - 1), v, table, n - 1)
    }
}

pub fn signal_entries(s: String, v: &Vec<SignalInfo>, table: &Vec<String>) -> (r: String)
    ensures
        r@ == signal_entries_text(s@, v@, views(table@), v@.len() as int),
{
    let ghost start = s@;
    let mut s = s;
    let mut i: usize = 0;
    while i < v.len()
        invariant
            i <= v@.len(),
            s@ == signal_entries_text(start, v@, views(table@), i as int),
        decreases v@.len() - i,
    {
        s = signal_entry(s, v, table, i);
        i += 1;
    }
    s
}

/// The method-table entry of `m`, with the number `id` and the comment word
/// `word`.
pub open spec fn method_entry_text(
    s: Seq<char>,
    m: MethodInfo,
    table: Seq<Seq<char>>,
    word: Seq<char>,
    id: int,
) -> Seq<char> {
    s
        + "        // "@
        + word
        + " "@
        + decimal(id as nat)
        + ": "@
        + m.name@
        + "\n"@
        + "        QtMocHelpers::MethodData<"@
        + method_template_text(m.return_type@, m.params@)
        + ">("@
        + decimal(table_index(table, m.name@) as nat)
        + ", "@
        + decimal(table_index(table, ""@) as nat)
        + ", QMC::AccessPublic, "@
        + return_metatype(m.return_type@)
        + entry_params(m.params@, table_index(table, ""@))
        + "),\n"@
}

pub fn method_entry(
    s: String,
    m: &MethodInfo,
    table: &Vec<String>,
    word: &str,
    id: usize,
) -> (r: String)
    ensures
        r@ == method_entry_text(s@, *m, views(table@), word@, id as int),
{
    s
        .concat("        // ")
        .concat(word)
        .concat(" ")
        .concat(decimal_string(id as u64).as_str())
        .concat(": ")
        .concat(m.name.as_str())
        .concat("\n")
        .concat("        QtMocHelpers::MethodData<")
        .concat(method_template(m.return_type.as_str(), &m.params).as_str())
        .concat(">(")
        .concat(decimal_string(index_in_table(table, m.name.as_str()) as u64).as_str())
        .concat(", ")
        .concat(decimal_string(index_in_table(table, "") as u64).as_str())
        .concat(", QMC::AccessPublic, ")
        .concat(qmetatype_for_return(m.return_type.as_str()).as_str())
        .concat(render_entry_params(&m.params, index_in_table(table, "")).as_str())
        .concat("),\n")
}

/// The entries of the methods that have a receiver, numbered from `base`.
pub open spec fn method_entries_text(
    s: Seq<char>,
    v: Seq<MethodInfo>,
    table: Seq<Seq<char>>,
    word: Seq<char>,
    base: int,
    n: int,
) -> Seq<char>
    decreases n,
{
    if n <= 0 {
        s
    } else {
        let before = method_entries_text(s, v, table, word, base, n - 1);
        if v[n - 1].is_static {
            before
        } else {
            method_entry_text(before, v[n - 1], table, word, base + instance_count(v, n - 1))
        }
    }
}

fn method_entries(
    s: String,
    v: &Vec<MethodInfo>,
    table: &Vec<String>,
    word: &str,
    base: usize,
) -> (r: String)
    requires
        base + v@.len() <= usize::MAX,
    ensures
        r@ == method_entries_text(s@, v@, views(table@), word@, base as int, v@.len() as int),
{
    let ghost start = s@;
    let mut s = s;
    let mut id: usize = base;
    let mut i: usize = 0;
    while i < v.len()
        invariant
            i <= v@.len(),
            base + v@.len() <= usize::MAX,
            id == base + instance_count(v@, i as int),
            id <= base + i,
            s@ == method_entries_text(start, v@, views(table@), word@, base as int, i as int),
        decreases v@.len() - i,
    {
        if !v[i].is_static {
            s = method_entry(s, &v[i], table, word, id);
            id += 1;
        }
        i += 1;
    }
    s
}

/// The flags of a property entry.
pub open spec fn property_flags(p: PropInfo) -> Seq<char> {
    "QMC::DefaultPropertyFlags"@ + (if p.writable {
        " | QMC::Writable"@
    } else {
        ""@
    }) + " | QMC::StdCppSet"@ + (if bindable_surface(p) {
        " | QMC::Bindable"@
    } else {
        ""@
    })
}

fn render_property_flags(p: &PropInfo) -> (r: String)
    ensures
        r@ == property_flags(*p),
{
    let w: &str = if p.writable {
        " | QMC::Writable"
    } else {
        ""
    };
    let b: &str = if p.has_bindable_surface() {
        " | QMC::Bindable"
    } else {
        ""
    };
    "QMC::DefaultPropertyFlags".to_owned().concat(w).concat(" | QMC::StdCppSet").concat(b)
}

/// The notify argument of a property entry: the index of its signal, where it
/// has one.
pub open spec fn notify_argument(p: PropInfo) -> Seq<char> {
    match p.notify_signal_idx {
        Some(idx) => ", "@ + decimal(idx as nat),
        None => ""@,
    }
}

fn render_notify(p: &PropInfo) -> (r: String)
    ensures
        r@ == notify_argument(*p),
{
    match p.notify_signal_idx {
        Some(idx) => ", ".to_owned().concat(decimal_string(idx as u64).as_str()),
        None => "".to_owned(),
    }
}

/// The entry of property `i`.
pub open spec fn property_entry_text(
    s: Seq<char>,
    v: Seq<PropInfo>,
    table: Seq<Seq<char>>,
    i: int,
) -> Seq<char> {
    s
        + "        // property "@
        + decimal(i as nat)
        + ": "@
        + v[i].name@
        + "\n"@
        + "        QtMocHelpers::PropertyData<"@
        + storage_type(v[i].cpp_type@)
        + ">("@
        + decimal(table_index(table, v[i].name@) as nat)
        + ", "@
        + v[i].qmetatype@
        + ", "@
        + property_flags(v[i])
        + notify_argument(v[i])
        + "),\n"@
}

pub fn property_entry(s: String, v: &Vec<PropInfo>, table: &Vec<String>, i: usize) -> (r: String)
    requires
        i < v@.len(),
    ensures
        r@ == property_entry_text(s@, v@, views(table@), i as int),
{
    s
        .concat("        // property ")
        .concat(decimal_string(i as u64).as_str())
        .concat(": ")
        .concat(v[i].name.as_str())
        .concat("\n")
        .concat("        QtMocHelpers::PropertyData<")
        .concat(prop_cpp_type_for_template(v[i].cpp_type.as_str()).as_str())
        .concat(">(")
        .concat(decimal_string(index_in_table(table, v[i].name.as_str()) as u64).as_str())
        .concat(", ")
        .concat(v[i].qmetatype)
        .concat(", ")
        .concat(render_property_flags(&v[i]).as_str())
        .concat(render_notify(&v[i]).as_str())
        .concat("),\n")
}

/// The entries of the properties.
pub open spec fn property_entries_text(
    s: Seq<char>,
    v: Seq<PropInfo>,
    table: Seq<Seq<char>>,
    n: int,
) -> Seq<char>
    decreases n,
{
    if n <= 0 {
        s
    } else {
        property_entry_text(property_entries_text(s, v, table, n - 1), v, table, n - 1)
    }
}

pub fn property_entries(s: String, v: &Vec<PropInfo>, table: &Vec<String>) -> (r: String)
    ensures
        r@ == property_entries_text(s@, v@, views(table@), v@.len() as int),
{
    let ghost start = s@;
    let mut s = s;
    let mut i: usize = 0;
    while i < v.len()
        invariant
            i <= v@.len(),
            s@ == property_entries_text(start, v@, views(table@), i as int),
        decreases v@.len() - i,
    {
        s = property_entry(s, v, table, i);
        i += 1;
    }
    s
}

/// The tag struct, local to the file.
pub open spec fn emit_tag_text(s: Seq<char>, tag: Seq<char>) -> Seq<char> {
    s
        + "namespace {\n"@
        + "struct "@
        + tag
        + " {};\n"@
        + "}  // namespace\n"@
        + "\n"@
}

pub fn emit_tag(s: String, tag: &str) -> (r: String)
    ensures
        r@ == emit_tag_text(s@, tag@),
{
    s
        .concat("namespace {\n")
        .concat("struct ")
        .concat(tag)
        .concat(" {};\n")
        .concat("}  // namespace\n")
        .concat("\n")
}

/// The head of the `qt_create_metaobjectdata` specialization.
pub open spec fn emit_data_head_text(s: Seq<char>, cls: Seq<char>, tag: Seq<char>) -> Seq<char> {
    s
        + "template <> constexpr inline auto "@
        + cls
        + "::qt_create_metaobjectdata<"@
        + tag
        + ">()\n"@
        + "{\n"@
        + "    namespace QMC = QtMocConstants;\n"@
        + "    QtMocHelpers::StringRefStorage qt_stringData {\n"@
}

pub fn emit_data_head(s: String, cls: &str, tag: &str) -> (r: String)
    ensures
        r@ == emit_data_head_text(s@, cls@, tag@),
{
    s
        .concat("template <> constexpr inline auto ")
        .concat(cls)
        .concat("::qt_create_metaobjectdata<")
        .concat(tag)
        .concat(">()\n")
        .concat("{\n")
        .concat("    namespace QMC = QtMocConstants;\n")
        .concat("    QtMocHelpers::StringRefStorage qt_stringData {\n")
}

/// What closes the `qt_create_metaobjectdata` specialization.
pub open spec fn emit_data_tail_text(s: Seq<char>, cls: Seq<char>, tag: Seq<char>) -> Seq<char> {
    s
        + "    };\n"@
        + "    QtMocHelpers::UintData qt_enums {};\n"@
        + "\n"@
        + "    return QtMocHelpers::metaObjectData<"@
        + cls
        + ", "@
        + tag
        + ">(QMC::MetaObjectFlag{}, qt_stringData, qt_methods, qt_properties, qt_enums);\n"@
        + "}\n"@
        + "\n"@
}

pub fn emit_data_tail(s: String, cls: &str, tag: &str) -> (r: String)
    ensures
        r@ == emit_data_tail_text(s@, cls@, tag@),
{
    s
        .concat("    };\n")
        .concat("    QtMocHelpers::UintData qt_enums {};\n")
        .concat("\n")
        .concat("    return QtMocHelpers::metaObjectData<")
        .concat(cls)
        .concat(", ")
        .concat(tag)
        .concat(">(QMC::MetaObjectFlag{}, qt_stringData, qt_methods, qt_properties, qt_enums);\n")
        .concat("}\n")
        .concat("\n")
}

/// The definition of `staticMetaObject`, `metaObject()` and `qt_metacast`.
pub open spec fn emit_static_object_text(
    s: Seq<char>,
    cls: Seq<char>,
    tag: Seq<char>,
    sup: Seq<char>,
) -> Seq<char> {
    s
        + "Q_CONSTINIT const QMetaObject "@
        + cls
        + "::staticMetaObject = { {\n"@
        + "    QMetaObject::SuperData::link<"@
        + sup
        + "::staticMetaObject>(),\n"@
        + "    "@
        + cls
        + "::qt_staticMetaObjectStaticContent<"@
        + tag
        + ">.stringdata,\n"@
        + "    "@
        + cls
        + "::qt_staticMetaObjectStaticContent<"@
        + tag
        + ">.data,\n"@
        + "    qt_static_metacall,\n"@
        + "    nullptr,\n"@
        + "    "@
        + cls
        + "::qt_staticMetaObjectRelocatingContent<"@
        + tag
        + ">.metaTypes,\n"@
        + "    nullptr\n"@
        + "} };\n"@
        + "\n"@
        + "const QMetaObject* "@
        + cls
        + "::metaObject() const\n"@
        + "{\n"@
        + "    return QObject::d_ptr->metaObject ? QObject::d_ptr->dynamicMetaObject() : &staticMetaObject;\n"@
        + "}\n"@
        + "\n"@
        + "void* "@
        + cls
        + "::qt_metacast(const char* clname)\n"@
        + "{\n"@
        + "    if (!clname) return nullptr;\n"@
        + "    if (!std::strcmp(clname, "@
        + cls
        + "::qt_staticMetaObjectStaticContent<"@
        + tag
        + ">.strings))\n"@
        + "        return static_cast<void*>(this);\n"@
        + "    return "@
        + sup
        + "::qt_metacast(clname);\n"@
        + "}\n"@
        + "\n"@
}

pub fn emit_static_object(s: String, cls: &str, tag: &str, sup: &str) -> (r: String)
    ensures
        r@ == emit_static_object_text(s@, cls@, tag@, sup@),
{
    s
        .concat("Q_CONSTINIT const QMetaObject ")
        .concat(cls)
        .concat("::staticMetaObject = { {\n")
        .concat("    QMetaObject::SuperData::link<")
        .concat(sup)
        .concat("::staticMetaObject>(),\n")
        .concat("    ")
        .concat(cls)
        .concat("::qt_staticMetaObjectStaticContent<")
        .concat(tag)
        .concat(">.stringdata,\n")
        .concat("    ")
        .concat(cls)
        .concat("::qt_staticMetaObjectStaticContent<")
        .concat(tag)
        .concat(">.data,\n")
        .concat("    qt_static_metacall,\n")
        .concat("    nullptr,\n")
        .concat("    ")
        .concat(cls)
        .concat("::qt_staticMetaObjectRelocatingContent<")
        .concat(tag)
        .concat(">.metaTypes,\n")
        .concat("    nullptr\n")
        .concat("} };\n")
        .concat("\n")
        .concat("const QMetaObject* ")
        .concat(cls)
        .concat("::metaObject() const\n")
        .concat("{\n")
        .concat("    return QObject::d_ptr->metaObject ? QObject::d_ptr->dynamicMetaObject() : &staticMetaObject;\n")
        .concat("}\n")
        .concat("\n")
        .concat("void* ")
        .concat(cls)
        .concat("::qt_metacast(const char* clname)\n")
        .concat("{\n")
        .concat("    if (!clname) return nullptr;\n")
        .concat("    if (!std::strcmp(clname, ")
        .concat(cls)
        .concat("::qt_staticMetaObjectStaticContent<")
        .concat(tag)
        .concat(">.strings))\n")
        .concat("        return static_cast<void*>(this);\n")
        .concat("    return ")
        .concat(sup)
        .concat("::qt_metacast(clname);\n")
        .concat("}\n")
        .concat("\n")
}

// ---- dispatch -------------------------------------------------------------------

/// The head of `qt_metacall`.
pub open spec fn metacall_head_text(s: Seq<char>, cls: Seq<char>, sup: Seq<char>) -> Seq<char> {
    s
        + "int "@
        + cls
        + "::qt_metacall(QMetaObject::Call _c, int _id, void** _a)\n"@
        + "{\n"@
        + "    _id = "@
        + sup
        + "::qt_metacall(_c, _id, _a);\n"@
        + "    if (_id < 0) return _id;\n"@
}

pub fn metacall_head(s: String, cls: &str, sup: &str) -> (r: String)
    ensures
        r@ == metacall_head_text(s@, cls@, sup@),
{
    s
        .concat("int ")
        .concat(cls)
        .concat("::qt_metacall(QMetaObject::Call _c, int _id, void** _a)\n")
        .concat("{\n")
        .concat("    _id = ")
        .concat(sup)
        .concat("::qt_metacall(_c, _id, _a);\n")
        .concat("    if (_id < 0) return _id;\n")
}

/// The method part of `qt_metacall`, for `total` methods.
pub open spec fn metacall_methods_text(s: Seq<char>, total: int) -> Seq<char> {
    s
        + "    if (_c == QMetaObject::InvokeMetaMethod) {\n"@
        + "        if (_id < "@
        + decimal(total as nat)
        + ")\n"@
        + "            qt_static_metacall(this, _c, _id, _a);\n"@
        + "        _id -= "@
        + decimal(total as nat)
        + ";\n"@
        + "    }\n"@
        + "    if (_c == QMetaObject::RegisterMethodArgumentMetaType) {\n"@
        + "        if (_id < "@
        + decimal(total as nat)
        + ")\n"@
        + "            *reinterpret_cast<QMetaType*>(_a[0]) = QMetaType();\n"@
        + "        _id -= "@
        + decimal(total as nat)
        + ";\n"@
        + "    }\n"@
}

pub fn metacall_methods(s: String, total: usize) -> (r: String)
    ensures
        r@ == metacall_methods_text(s@, total as int),
{
    s
        .concat("    if (_c == QMetaObject::InvokeMetaMethod) {\n")
        .concat("        if (_id < ")
        .concat(decimal_string(total as u64).as_str())
        .concat(")\n")
        .concat("            qt_static_metacall(this, _c, _id, _a);\n")
        .concat("        _id -= ")
        .concat(decimal_string(total as u64).as_str())
        .concat(";\n")
        .concat("    }\n")
        .concat("    if (_c == QMetaObject::RegisterMethodArgumentMetaType) {\n")
        .concat("        if (_id < ")
        .concat(decimal_string(total as u64).as_str())
        .concat(")\n")
        .concat("            *reinterpret_cast<QMetaType*>(_a[0]) = QMetaType();\n")
        .concat("        _id -= ")
        .concat(decimal_string(total as u64).as_str())
        .concat(";\n")
        .concat("    }\n")
}

/// The property part of `qt_metacall`, for `count` properties.
pub open spec fn metacall_properties_text(s: Seq<char>, count: int) -> Seq<char> {
    s
        + "    if (_c == QMetaObject::ReadProperty || _c == QMetaObject::WriteProperty\n"@
        + "            || _c == QMetaObject::ResetProperty || _c == QMetaObject::BindableProperty\n"@
        + "            || _c == QMetaObject::RegisterPropertyMetaType) {\n"@
        + "        qt_static_metacall(this, _c, _id, _a);\n"@
        + "        _id -= "@
        + decimal(count as nat)
        + ";\n"@
        + "    }\n"@
}

pub fn metacall_properties(s: String, count: usize) -> (r: String)
    ensures
        r@ == metacall_properties_text(s@, count as int),
{
    s
        .concat("    if (_c == QMetaObject::ReadProperty || _c == QMetaObject::WriteProperty\n")
        .concat("            || _c == QMetaObject::ResetProperty || _c == QMetaObject::BindableProperty\n")
        .concat("            || _c == QMetaObject::RegisterPropertyMetaType) {\n")
        .concat("        qt_static_metacall(this, _c, _id, _a);\n")
        .concat("        _id -= ")
        .concat(decimal_string(count as u64).as_str())
        .concat(";\n")
        .concat("    }\n")
}

/// The head of `qt_static_metacall`.
pub open spec fn static_metacall_head_text(s: Seq<char>, cls: Seq<char>) -> Seq<char> {
    s
        + "void "@
        + cls
        + "::qt_static_metacall(QObject* _o, QMetaObject::Call _c, int _id, void** _a)\n"@
        + "{\n"@
        + "    (void)_a;\n"@
        + "    auto* _t = static_cast<"@
        + cls
        + "*>(_o);\n"@
}

pub fn static_metacall_head(s: String, cls: &str) -> (r: String)
    ensures
        r@ == static_metacall_head_text(s@, cls@),
{
    s
        .concat("void ")
        .concat(cls)
        .concat("::qt_static_metacall(QObject* _o, QMetaObject::Call _c, int _id, void** _a)\n")
        .concat("{\n")
        .concat("    (void)_a;\n")
        .concat("    auto* _t = static_cast<")
        .concat(cls)
        .concat("*>(_o);\n")
}

/// The dispatch case that calls `name` under the number `id`.
pub open spec fn invoke_case_text(
    s: Seq<char>,
    name: Seq<char>,
    params: Seq<ParamInfo>,
    id: int,
) -> Seq<char> {
    s
        + "        case "@
        + decimal(id as nat)
        + ": { "@
        + unpack_text(params, params.len() as int)
        + "_t->"@
        + name
        + "("@
        + join(arg_names(params.len()), ", "@)
        + "); break; }\n"@
}

pub fn invoke_case(s: String, name: &str, params: &Vec<ParamInfo>, id: usize) -> (r: String)
    ensures
        r@ == invoke_case_text(s@, name@, params@, id as int),
{
    s
        .concat("        case ")
        .concat(decimal_string(id as u64).as_str())
        .concat(": { ")
        .concat(unpack_method_args(params).as_str())
        .concat("_t->")
        .concat(name)
        .concat("(")
        .concat(arg_list(params.len()).as_str())
        .concat("); break; }\n")
}

/// The dispatch case of signal `i`.
pub open spec fn signal_case_text(s: Seq<char>, v: Seq<SignalInfo>, i: int) -> Seq<char> {
    invoke_case_text(s, v[i].name@, v[i].params@, i)
}

fn signal_case(s: String, v: &Vec<SignalInfo>, i: usize) -> (r: String)
    requires
        i < v@.len(),
    ensures
        r@ == signal_case_text(s@, v@, i as int),
{
    invoke_case(s, v[i].name.as_str(), &v[i].params, i)
}

/// The dispatch case of a method with the number `id`.
pub open spec fn method_case_text(s: Seq<char>, m: MethodInfo, id: int) -> Seq<char> {
    invoke_case_text(s, m.name@, m.params@, id)
}

fn method_case(s: String, m: &MethodInfo, id: usize) -> (r: String)
    ensures
        r@ == method_case_text(s@, *m, id as int),
{
    invoke_case(s, m.name.as_str(), &m.params, id)
}

/// The dispatch cases of the signals.
pub open spec fn signal_cases_text(s: Seq<char>, v: Seq<SignalInfo>, n: int) -> Seq<char>
    decreases n,
{
    if n <= 0 {
        s
    } else {
        signal_case_text(signal_cases_text(s, v, n - 1), v, n - 1)
    }
}

pub fn signal_cases(s: String, v: &Vec<SignalInfo>) -> (r: String)
    ensures
        r@ == signal_cases_text(s@, v@, v@.len() as int),
{
    let ghost start = s@;
    let mut s = s;
    let mut i: usize = 0;
    while i < v.len()
        invariant
            i <= v@.len(),
            s@ == signal_cases_text(start, v@, i as int),
        decreases v@.len() - i,
    {
        s = signal_case(s, v, i);
        i += 1;
    }
    s
}

/// The dispatch cases of the methods that have a receiver, numbered from `base`.
pub open spec fn method_cases_text(s: Seq<char>, v: Seq<MethodInfo>, base: int, n: int) -> Seq<char>
    decreases n,
{
    if n <= 0 {
        s
    } else {
        let before = method_cases_text(s, v, base, n - 1);
        if v[n - 1].is_static {
            before
        } else {
            method_case_text(before, v[n - 1], base + instance_count(v, n - 1))
        }
    }
}

fn method_cases(s: String, v: &Vec<MethodInfo>, base: usize) -> (r: String)
    requires
        base + v@.len() <= usize::MAX,
    ensures
        r@ == method_cases_text(s@, v@, base as int, v@.len() as int),
{
    let ghost start = s@;
    let mut s = s;
    let mut id: usize = base;
    let mut i: usize = 0;
    while i < v.len()
        invariant
            i <= v@.len(),
            base + v@.len() <= usize::MAX,
            id == base + instance_count(v@, i as int),
            id <= base + i,
            s@ == method_cases_text(start, v@, base as int, i as int),
        decreases v@.len() - i,
    {
        if !v[i].is_static {
            s = method_case(s, &v[i], id);
            id += 1;
        }
        i += 1;
    }
    s
}

/// The lookup line of signal `i`.
pub open spec fn index_of_signal_text(
    s: Seq<char>,
    cls: Seq<char>,
    v: Seq<SignalInfo>,
    i: int,
) -> Seq<char> {
    s
        + "        if (QtMocHelpers::indexOfMethod<void ("@
        + cls
        + "::*)("@
        + join(param_types(v[i].params@), ", "@)
        + ")>(_a, &"@
        + cls
        + "::"@
        + v[i].name@
        + ", "@
        + decimal(i as nat)
        + "))\n"@
        + "            return;\n"@
}

pub fn index_of_signal(s: String, cls: &str, v: &Vec<SignalInfo>, i: usize) -> (r: String)
    requires
        i < v@.len(),
    ensures
        r@ == index_of_signal_text(s@, cls@, v@, i as int),
{
    s
        .concat("        if (QtMocHelpers::indexOfMethod<void (")
        .concat(cls)
        .concat("::*)(")
        .concat(type_list(&v[i].params).as_str())
        .concat(")>(_a, &")
        .concat(cls)
        .concat("::")
        .concat(v[i].name.as_str())
        .concat(", ")
        .concat(decimal_string(i as u64).as_str())
        .concat("))\n")
        .concat("            return;\n")
}

/// The lookup lines of the signals.
pub open spec fn index_of_signals_text(
    s: Seq<char>,
    cls: Seq<char>,
    v: Seq<SignalInfo>,
    n: int,
) -> Seq<char>
    decreases n,
{
    if n <= 0 {
        s
    } else {
        index_of_signal_text(index_of_signals_text(s, cls, v, n - 1), cls, v, n - 1)
    }
}

pub fn index_of_signals(s: String, cls: &str, v: &Vec<SignalInfo>) -> (r: String)
    ensures
        r@ == index_of_signals_text(s@, cls@, v@, v@.len() as int),
{
    let ghost start = s@;
    let mut s = s;
    let mut i: usize = 0;
    while i < v.len()
        invariant
            i <= v@.len(),
            s@ == index_of_signals_text(start, cls@, v@, i as int),
        decreases v@.len() - i,
    {
        s = index_of_signal(s, cls, v, i);
        i += 1;
    }
    s
}

/// The read case of property `i`.
pub open spec fn read_case_text(s: Seq<char>, v: Seq<PropInfo>, i: int) -> Seq<char> {
    s
        + "        case "@
        + decimal(i as nat)
        + ": *reinterpret_cast<"@
        + storage_type(v[i].cpp_type@)
        + "*>(_v) = _t->"@
        + v[i].name@
        + "(); break;\n"@
}

pub fn read_case(s: String, v: &Vec<PropInfo>, i: usize) -> (r: String)
    requires
        i < v@.len(),
    ensures
        r@ == read_case_text(s@, v@, i as int),
{
    s
        .concat("        case ")
        .concat(decimal_string(i as u64).as_str())
        .concat(": *reinterpret_cast<")
        .concat(prop_cpp_type_for_template(v[i].cpp_type.as_str()).as_str())
        .concat("*>(_v) = _t->")
        .concat(v[i].name.as_str())
        .concat("(); break;\n")
}

/// The read cases of the properties.
pub open spec fn read_cases_text(s: Seq<char>, v: Seq<PropInfo>, n: int) -> Seq<char>
    decreases n,
{
    if n <= 0 {
        s
    } else {
        read_case_text(read_cases_text(s, v, n - 1), v, n - 1)
    }
}

pub fn read_cases(s: String, v: &Vec<PropInfo>) -> (r: String)
    ensures
        r@ == read_cases_text(s@, v@, v@.len() as int),
{
    let ghost start = s@;
    let mut s = s;
    let mut i: usize = 0;
    while i < v.len()
        invariant
            i <= v@.len(),
            s@ == read_cases_text(start, v@, i as int),
        decreases v@.len() - i,
    {
        s = read_case(s, v, i);
        i += 1;
    }
    s
}

/// The write case of property `i`: none where it is read-only.
pub open spec fn write_case_text(s: Seq<char>, v: Seq<PropInfo>, i: int) -> Seq<char> {
    if v[i].writable {
        s
            + "        case "@
            + decimal(i as nat)
            + ": _t->"@
            + v[i].setter@
            + "(*reinterpret_cast<"@
            + storage_type(v[i].cpp_type@)
            + "*>(_v)); break;\n"@
    } else {
        s
    }
}

fn write_case(s: String, v: &Vec<PropInfo>, i: usize) -> (r: String)
    requires
        i < v@.len(),
    ensures
        r@ == write_case_text(s@, v@, i as int),
{
    if v[i].writable {
        s
            .concat("        case ")
            .concat(decimal_string(i as u64).as_str())
            .concat(": _t->")
            .concat(v[i].setter.as_str())
            .concat("(*reinterpret_cast<")
            .concat(prop_cpp_type_for_template(v[i].cpp_type.as_str()).as_str())
            .concat("*>(_v)); break;\n")
    } else {
        s
    }
}

/// The write cases of the writable properties.
pub open spec fn write_cases_text(s: Seq<char>, v: Seq<PropInfo>, n: int) -> Seq<char>
    decreases n,
{
    if n <= 0 {
        s
    } else {
        write_case_text(write_cases_text(s, v, n - 1), v, n - 1)
    }
}

pub fn write_cases(s: String, v: &Vec<PropInfo>) -> (r: String)
    ensures
        r@ == write_cases_text(s@, v@, v@.len() as int),
{
    let ghost start = s@;
    let mut s = s;
    let mut i: usize = 0;
    while i < v.len()
        invariant
            i <= v@.len(),
            s@ == write_cases_text(start, v@, i as int),
        decreases v@.len() - i,
    {
        s = write_case(s, v, i);
        i += 1;
    }
    s
}

/// The bindable case of property `i`: none without a bindable surface.
pub open spec fn bindable_case_text(s: Seq<char>, v: Seq<PropInfo>, i: int) -> Seq<char> {
    if bindable_surface(v[i]) {
        s
            + "        case "@
            + decimal(i as nat)
            + ": *static_cast<QUntypedBindable*>(_b) = _t->"@
            + v[i].bindable_getter->0@
            + "(); break;\n"@
    } else {
        s
    }
}

fn bindable_case(s: String, v: &Vec<PropInfo>, i: usize) -> (r: String)
    requires
        i < v@.len(),
        bindable_surface(v@[i as int]) ==> v@[i as int].bindable_getter is Some,
    ensures
        r@ == bindable_case_text(s@, v@, i as int),
{
    if v[i].has_bindable_surface() {
        match &v[i].bindable_getter {
            Some(getter) => s
                .concat("        case ")
                .concat(decimal_string(i as u64).as_str())
                .concat(": *static_cast<QUntypedBindable*>(_b) = _t->")
                .concat(getter.as_str())
                .concat("(); break;\n"),
            None => s,
        }
    } else {
        s
    }
}

/// The bindable cases of the properties with a bindable surface.
pub open spec fn bindable_cases_text(s: Seq<char>, v: Seq<PropInfo>, n: int) -> Seq<char>
    decreases n,
{
    if n <= 0 {
        s
    } else {
        bindable_case_text(bindable_cases_text(s, v, n - 1), v, n - 1)
    }
}

pub fn bindable_cases(s: String, v: &Vec<PropInfo>) -> (r: String)
    requires
        forall|k: int| 0 <= k < v@.len() && bindable_surface(v@[k]) ==> (#[trigger] v@[k]).bindable_getter is Some,
    ensures
        r@ == bindable_cases_text(s@, v@, v@.len() as int),
{
    let ghost start = s@;
    let mut s = s;
    let mut i: usize = 0;
    while i < v.len()
        invariant
            i <= v@.len(),
            s@ == bindable_cases_text(start, v@, i as int),
            forall|k: int| 0 <= k < v@.len() && bindable_surface(v@[k]) ==> (#[trigger] v@[k]).bindable_getter is Some,
        decreases v@.len() - i,
    {
        s = bindable_case(s, v, i);
        i += 1;
    }
    s
}

/// `qt_metacall` of a class.
pub open spec fn metacall_text(s: Seq<char>, info: ClassInfo) -> Seq<char> {
    let total = method_total(info);
    let s1 = metacall_head_text(s, info.name@, info.super_class@);
    let s2 = if total > 0 {
        metacall_methods_text(s1, total)
    } else {
        s1
    };
    let s3 = if info.properties@.len() > 0 {
        metacall_properties_text(s2, info.properties@.len() as int)
    } else {
        s2
    };
    s3 + "    return _id;\n"@ + "}\n"@ + "\n"@
}

fn emit_metacall(s: String, info: &ClassInfo, total: usize) -> (r: String)
    requires
        total == method_total(*info),
    ensures
        r@ == metacall_text(s@, *info),
{
    let mut s = metacall_head(s, info.name.as_str(), info.super_class.as_str());
    if total > 0 {
        s = metacall_methods(s, total);
    }
    if info.properties.len() > 0 {
        s = metacall_properties(s, info.properties.len());
    }
    s.concat("    return _id;\n").concat("}\n").concat("\n")
}

/// What closes a dispatch switch.
pub open spec fn switch_end(s: Seq<char>) -> Seq<char> {
    s + "        default: break;\n"@ + "        }\n"@ + "    }\n"@
}

fn close_switch(s: String) -> (r: String)
    ensures
        r@ == switch_end(s@),
{
    s.concat("        default: break;\n").concat("        }\n").concat("    }\n")
}

/// The method part of `qt_static_metacall`: calls by number, and the lookup of
/// signal numbers.
pub open spec fn invoke_text(s: Seq<char>, info: ClassInfo) -> Seq<char> {
    let signals = info.signals@.len() as int;
    let methods = instance_count(info.methods@, info.methods@.len() as int);
    let s1 = s + "    if (_c == QMetaObject::InvokeMetaMethod) {\n"@ + "        switch (_id) {\n"@;
    let s2 = signal_cases_text(s1, info.signals@, signals);
    let s3 = method_cases_text(s2, info.methods@, signals, info.methods@.len() as int);
    let s4 = method_cases_text(s3, info.slots@, signals + methods, info.slots@.len() as int);
    let s5 = switch_end(s4);
    if signals > 0 {
        let s6 = s5 + "    if (_c == QMetaObject::IndexOfMethod) {\n"@;
        index_of_signals_text(s6, info.name@, info.signals@, signals) + "    }\n"@
    } else {
        s5
    }
}

fn emit_invoke(s: String, info: &ClassInfo) -> (r: String)
    requires
        well_formed(*info),
    ensures
        r@ == invoke_text(s@, *info),
{
    let signals: usize = info.signals.len();
    let methods: usize = count_instance(&info.methods);
    let s = s.concat("    if (_c == QMetaObject::InvokeMetaMethod) {\n").concat(
        "        switch (_id) {\n",
    );
    let s = signal_cases(s, &info.signals);
    let s = method_cases(s, &info.methods, signals);
    let s = method_cases(s, &info.slots, signals + methods);
    let s = close_switch(s);
    if signals > 0 {
        let s = s.concat("    if (_c == QMetaObject::IndexOfMethod) {\n");
        index_of_signals(s, info.name.as_str(), &info.signals).concat("    }\n")
    } else {
        s
    }
}

/// The property part of `qt_static_metacall`: reads, writes and bindables.
pub open spec fn property_access_text(s: Seq<char>, v: Seq<PropInfo>) -> Seq<char> {
    let n = v.len() as int;
    let s1 = s + "    if (_c == QMetaObject::ReadProperty) {\n"@ + "        void* _v = _a[0];\n"@
        + "        switch (_id) {\n"@;
    let s2 = switch_end(read_cases_text(s1, v, n));
    let s3 = if any_writable(v) {
        let w = s2 + "    if (_c == QMetaObject::WriteProperty) {\n"@ + "        void* _v = _a[0];\n"@
            + "        switch (_id) {\n"@;
        switch_end(write_cases_text(w, v, n))
    } else {
        s2
    };
    if any_bindable(v) {
        let b = s3 + "    if (_c == QMetaObject::BindableProperty) {\n"@
            + "        void* _b = _a[0];\n"@ + "        switch (_id) {\n"@;
        switch_end(bindable_cases_text(b, v, n))
    } else {
        s3
    }
}

fn emit_property_access(s: String, v: &Vec<PropInfo>) -> (r: String)
    requires
        forall|k: int|
            0 <= k < v@.len() && bindable_surface(v@[k])
                ==> (#[trigger] v@[k]).bindable_getter is Some,
    ensures
        r@ == property_access_text(s@, v@),
{
    let s = s.concat("    if (_c == QMetaObject::ReadProperty) {\n").concat(
        "        void* _v = _a[0];\n",
    ).concat("        switch (_id) {\n");
    let mut s = close_switch(read_cases(s, v));
    if has_writable(v) {
        let w = s.concat("    if (_c == QMetaObject::WriteProperty) {\n").concat(
            "        void* _v = _a[0];\n",
        ).concat("        switch (_id) {\n");
        s = close_switch(write_cases(w, v));
    }
    if has_bindable(v) {
        let b = s.concat("    if (_c == QMetaObject::BindableProperty) {\n").concat(
            "        void* _b = _a[0];\n",
        ).concat("        switch (_id) {\n");
        s = close_switch(bindable_cases(b, v));
    }
    s
}

/// The head of a signal body.
pub open spec fn signal_head_text(
    s: Seq<char>,
    cls: Seq<char>,
    sig: SignalInfo,
    idx: int,
) -> Seq<char> {
    s
        + "// SIGNAL "@
        + decimal(idx as nat)
        + "\n"@
        + "void "@
        + cls
        + "::"@
        + sig.name@
        + "("@
        + join(param_decls(sig.params@), ", "@)
        + ")\n"@
        + "{\n"@
}

pub fn signal_head(s: String, cls: &str, sig: &SignalInfo, idx: usize) -> (r: String)
    ensures
        r@ == signal_head_text(s@, cls@, *sig, idx as int),
{
    s
        .concat("// SIGNAL ")
        .concat(decimal_string(idx as u64).as_str())
        .concat("\n")
        .concat("void ")
        .concat(cls)
        .concat("::")
        .concat(sig.name.as_str())
        .concat("(")
        .concat(decl_list(&sig.params).as_str())
        .concat(")\n")
        .concat("{\n")
}

/// The body of signal `idx`: it activates that number with the addresses of
/// its parameters.
pub open spec fn signal_body_text(
    s: Seq<char>,
    cls: Seq<char>,
    sig: SignalInfo,
    idx: int,
) -> Seq<char> {
    let head = signal_head_text(s, cls, sig, idx);
    let body = if sig.params@.len() == 0 {
        head
            + "    QMetaObject::activate(this, &staticMetaObject, "@
            + decimal(idx as nat)
            + ", nullptr);\n"@
    } else {
        head
            + "    void* _a[] = { nullptr, "@
            + join(param_addresses(sig.params@), ", "@)
            + " };\n"@
            + "    QMetaObject::activate(this, &staticMetaObject, "@
            + decimal(idx as nat)
            + ", _a);\n"@
    };
    body + "}\n"@ + "\n"@
}

pub fn emit_signal_body(s: String, cls: &str, sig: &SignalInfo, idx: usize) -> (r: String)
    ensures
        r@ == signal_body_text(s@, cls@, *sig, idx as int),
{
    let head = signal_head(s, cls, sig, idx);
    let body = if sig.params.len() == 0 {
        head
            .concat("    QMetaObject::activate(this, &staticMetaObject, ")
            .concat(decimal_string(idx as u64).as_str())
            .concat(", nullptr);\n")
    } else {
        head
            .concat("    void* _a[] = { nullptr, ")
            .concat(address_list(&sig.params).as_str())
            .concat(" };\n")
            .concat("    QMetaObject::activate(this, &staticMetaObject, ")
            .concat(decimal_string(idx as u64).as_str())
            .concat(", _a);\n")
    };
    body.concat("}\n").concat("\n")
}

/// The body of signal `i` of a class.
pub open spec fn nth_signal_body_text(
    s: Seq<char>,
    cls: Seq<char>,
    v: Seq<SignalInfo>,
    i: int,
) -> Seq<char> {
    signal_body_text(s, cls, v[i], i)
}

fn nth_signal_body(s: String, cls: &str, v: &Vec<SignalInfo>, i: usize) -> (r: String)
    requires
        i < v@.len(),
    ensures
        r@ == nth_signal_body_text(s@, cls@, v@, i as int),
{
    emit_signal_body(s, cls, &v[i], i)
}

/// The bodies of the signals.
pub open spec fn signal_bodies_text(
    s: Seq<char>,
    cls: Seq<char>,
    v: Seq<SignalInfo>,
    n: int,
) -> Seq<char>
    decreases n,
{
    if n <= 0 {
        s
    } else {
        nth_signal_body_text(signal_bodies_text(s, cls, v, n - 1), cls, v, n - 1)
    }
}

pub fn signal_bodies(s: String, cls: &str, v: &Vec<SignalInfo>) -> (r: String)
    ensures
        r@ == signal_bodies_text(s@, cls@, v@, v@.len() as int),
{
    let ghost start = s@;
    let mut s = s;
    let mut i: usize = 0;
    while i < v.len()
        invariant
            i <= v@.len(),
            s@ == signal_bodies_text(start, cls@, v@, i as int),
        decreases v@.len() - i,
    {
        s = nth_signal_body(s, cls, v, i);
        i += 1;
    }
    s
}

// ---- the whole section ------------------------------------------------------------

/// The name of the tag struct of a class.
pub open spec fn tag_name(cls: Seq<char>) -> Seq<char> {
    "qt_meta_tag_"@ + cls + "_t"@
}

/// The `qt_create_metaobjectdata` specialization of a class.
pub open spec fn data_text(s: Seq<char>, info: ClassInfo) -> Seq<char> {
    let cls = info.name@;
    let tag = tag_name(cls);
    let table = string_table(info);
    let signals = info.signals@.len() as int;
    let methods = instance_count(info.methods@, info.methods@.len() as int);
    let s1 = emit_data_head_text(s, cls, tag);
    let s2 = table_lines_text(s1, table, table.len() as int) + "    };\n"@ + "\n"@
        + "    QtMocHelpers::UintData qt_methods {\n"@;
    let s3 = signal_entries_text(s2, info.signals@, table, signals);
    let s4 = method_entries_text(
        s3,
        info.methods@,
        table,
        "method"@,
        signals,
        info.methods@.len() as int,
    );
    let s5 = method_entries_text(
        s4,
        info.slots@,
        table,
        "slot"@,
        signals + methods,
        info.slots@.len() as int,
    );
    let s6 = s5 + "    };\n"@ + "    QtMocHelpers::UintData qt_properties {\n"@;
    let s7 = property_entries_text(s6, info.properties@, table, info.properties@.len() as int);
    emit_data_tail_text(s7, cls, tag)
}

fn emit_data(s: String, info: &ClassInfo, tag: &str) -> (r: String)
    requires
        well_formed(*info),
        tag@ == tag_name(info.name@),
    ensures
        r@ == data_text(s@, *info),
{
    let cls = info.name.as_str();
    let table = build_string_table(info);
    let signals: usize = info.signals.len();
    let methods: usize = count_instance(&info.methods);
    let s = emit_data_head(s, cls, tag);
    let s = table_lines(s, &table).concat("    };\n").concat("\n").concat(
        "    QtMocHelpers::UintData qt_methods {\n",
    );
    let s = signal_entries(s, &info.signals, &table);
    let s = method_entries(s, &info.methods, &table, "method", signals);
    let s = method_entries(s, &info.slots, &table, "slot", signals + methods);
    let s = s.concat("    };\n").concat("    QtMocHelpers::UintData qt_properties {\n");
    let s = property_entries(s, &info.properties, &table);
    assert(views(table@).len() == table@.len());
    emit_data_tail(s, cls, tag)
}

/// The text of the `.cpp` side of a class's meta-object.
pub open spec fn source_text(info: ClassInfo) -> Seq<char> {
    let cls = info.name@;
    let tag = tag_name(cls);
    let s1 = emit_tag_text(""@, tag);
    let s2 = data_text(s1, info);
    let s3 = emit_static_object_text(s2, cls, tag, info.super_class@);
    let s4 = metacall_text(s3, info);
    let s5 = static_metacall_head_text(s4, cls);
    let s6 = if method_total(info) > 0 {
        invoke_text(s5, info)
    } else {
        s5
    };
    let s7 = if info.properties@.len() > 0 {
        property_access_text(s6, info.properties@)
    } else {
        s6
    };
    signal_bodies_text(s7 + "}\n"@ + "\n"@, cls, info.signals@, info.signals@.len() as int)
}

pub fn emit_source(info: &ClassInfo) -> (r: String)
    requires
        well_formed(*info),
    ensures
        r@ == source_text(*info),
{
    let cls = info.name.as_str();
    let tag = "qt_meta_tag_".to_owned().concat(cls).concat("_t");
    let total: usize = info.signals.len() + count_instance(&info.methods) + count_instance(
        &info.slots,
    );
    let s = emit_tag("".to_owned(), tag.as_str());
    let s = emit_data(s, info, tag.as_str());
    let s = emit_static_object(s, cls, tag.as_str(), info.super_class.as_str());
    let s = emit_metacall(s, info, total);
    let mut s = static_metacall_head(s, cls);
    if total > 0 {
        s = emit_invoke(s, info);
    }
    if info.properties.len() > 0 {
        s = emit_property_access(s, &info.properties);
    }
    signal_bodies(s.concat("}\n").concat("\n"), cls, &info.signals)
}

/// The meta-object section of a class: nothing for the header, and the
/// definitions for the `.cpp` file.
pub fn emit_meta_section(info: &ClassInfo) -> (r: MetaSection)
    requires
        well_formed(*info),
    ensures
        r.header_decls@ == ""@,
        r.source_defs@ == source_text(*info),
{
    MetaSection { header_decls: "".to_owned(), source_defs: emit_source(info) }
}

// ---- laws -------------------------------------------------------------------------

/// Interning keeps a table free of duplicates, keeps what it held, in place,
/// and holds the new name.
pub proof fn lemma_added(table: Seq<Seq<char>>, name: Seq<char>)
    requires
        table.no_duplicates(),
    ensures
        added(table, name).no_duplicates(),
        added(table, name).contains(name),
        table.len() <= added(table, name).len(),
        added(table, name).take(table.len() as int) == table,
{
    let t = added(table, name);
    assert(t.take(table.len() as int) =~= table);
    if !table.contains(name) {
        assert(t[table.len() as int] == name);
    }
}

/// `t` extends `table` without duplicates.
pub open spec fn table_extends(table: Seq<Seq<char>>, t: Seq<Seq<char>>) -> bool {
    &&& t.no_duplicates()
    &&& table.len() <= t.len()
    &&& t.take(table.len() as int) == table
}

proof fn lemma_extends_trans(a: Seq<Seq<char>>, b: Seq<Seq<char>>, c: Seq<Seq<char>>)
    requires
        table_extends(a, b),
        table_extends(b, c),
    ensures
        table_extends(a, c),
        forall|x: Seq<char>| b.contains(x) ==> c.contains(x),
{
    assert(c.take(a.len() as int) =~= b.take(a.len() as int)) by {
        assert forall|i: int| 0 <= i < a.len() implies c[i] == b[i] by {
            assert(c.take(b.len() as int)[i] == b[i]);
        }
    }
    assert forall|x: Seq<char>| b.contains(x) implies c.contains(x) by {
        let i = choose|i: int| 0 <= i < b.len() && b[i] == x;
        assert(c.take(b.len() as int)[i] == c[i]);
    }
}

proof fn lemma_intern_signals(table: Seq<Seq<char>>, v: Seq<SignalInfo>, n: int)
    requires
        table.no_duplicates(),
        0 <= n <= v.len(),
    ensures
        table_extends(table, intern_signals(table, v, n)),
        forall|i: int| 0 <= i < n ==> intern_signals(table, v, n).contains((#[trigger] v[i]).name@),
    decreases n,
{
    if n <= 0 {
        assert(table.take(table.len() as int) =~= table);
    } else {
        lemma_intern_signals(table, v, n - 1);
        let t = intern_signals(table, v, n - 1);
        lemma_added(t, v[n - 1].name@);
        lemma_extends_trans(table, t, added(t, v[n - 1].name@));
    }
}

proof fn lemma_intern_methods(table: Seq<Seq<char>>, v: Seq<MethodInfo>, n: int)
    requires
        table.no_duplicates(),
        0 <= n <= v.len(),
    ensures
        table_extends(table, intern_methods(table, v, n)),
        forall|i: int|
            0 <= i < n && !(#[trigger] v[i]).is_static ==> intern_methods(table, v, n).contains(
                v[i].name@,
            ),
    decreases n,
{
    if n <= 0 {
        assert(table.take(table.len() as int) =~= table);
    } else {
        lemma_intern_methods(table, v, n - 1);
        let t = intern_methods(table, v, n - 1);
        if !v[n - 1].is_static {
            lemma_added(t, v[n - 1].name@);
            lemma_extends_trans(table, t, added(t, v[n - 1].name@));
        }
    }
}

proof fn lemma_intern_props(table: Seq<Seq<char>>, v: Seq<PropInfo>, n: int)
    requires
        table.no_duplicates(),
        0 <= n <= v.len(),
    ensures
        table_extends(table, intern_props(table, v, n)),
        forall|i: int| 0 <= i < n ==> intern_props(table, v, n).contains((#[trigger] v[i]).name@),
    decreases n,
{
    if n <= 0 {
        assert(table.take(table.len() as int) =~= table);
    } else {
        lemma_intern_props(table, v, n - 1);
        let t = intern_props(table, v, n - 1);
        lemma_added(t, v[n - 1].name@);
        lemma_extends_trans(table, t, added(t, v[n - 1].name@));
    }
}

/// The string table of a class starts with the class name, holds no string
/// twice, and holds every name that an entry refers to: those of the signals,
/// of the methods and slots with a receiver, of the properties, and the empty
/// string.
pub proof fn law_string_table(info: ClassInfo)
    ensures
        string_table(info).len() > 0,
        string_table(info)[0] == info.name@,
        string_table(info).no_duplicates(),
        string_table(info).contains(""@),
        forall|i: int|
            0 <= i < info.signals@.len() ==> string_table(info).contains(
                (#[trigger] info.signals@[i]).name@,
            ),
        forall|i: int|
            0 <= i < info.methods@.len() && !(#[trigger] info.methods@[i]).is_static
                ==> string_table(info).contains(info.methods@[i].name@),
        forall|i: int|
            0 <= i < info.slots@.len() && !(#[trigger] info.slots@[i]).is_static ==> string_table(
                info,
            ).contains(info.slots@[i].name@),
        forall|i: int|
            0 <= i < info.properties@.len() ==> string_table(info).contains(
                (#[trigger] info.properties@[i]).name@,
            ),
{
    let e = Seq::<Seq<char>>::empty();
    let t0 = added(e, info.name@);
    lemma_added(e, info.name@);
    assert(t0 =~= seq![info.name@]);
    let t1 = intern_signals(t0, info.signals@, info.signals@.len() as int);
    lemma_intern_signals(t0, info.signals@, info.signals@.len() as int);
    let t2 = added(t1, ""@);
    lemma_added(t1, ""@);
    let t3 = intern_methods(t2, info.methods@, info.methods@.len() as int);
    lemma_intern_methods(t2, info.methods@, info.methods@.len() as int);
    let t4 = intern_methods(t3, info.slots@, info.slots@.len() as int);
    lemma_intern_methods(t3, info.slots@, info.slots@.len() as int);
    let t5 = intern_props(t4, info.properties@, info.properties@.len() as int);
    lemma_intern_props(t4, info.properties@, info.properties@.len() as int);
    lemma_extends_trans(t3, t4, t5);
    lemma_extends_trans(t2, t3, t5);
    lemma_extends_trans(t1, t2, t5);
    lemma_extends_trans(t0, t1, t5);
    assert(t5.take(1)[0] == t0[0]);
}

/// Every name in a table is found at its own position.
pub proof fn law_table_index(table: Seq<Seq<char>>, name: Seq<char>)
    requires
        table.contains(name),
    ensures
        0 <= table_index(table, name) < table.len(),
        table[table_index(table, name)] == name,
    decreases table.len(),
{
    if table[0] != name {
        let i = choose|i: int| 0 <= i < table.len() && table[i] == name;
        assert(table.drop_first()[i - 1] == name);
        law_table_index(table.drop_first(), name);
    }
}

/// The numbers of the method table are those below its total: signals first,
/// then methods, then slots, each entry with a number of its own.
pub proof fn law_method_numbers(info: ClassInfo, i: int, k: int)
    requires
        0 <= i < info.methods@.len(),
        !info.methods@[i].is_static,
        0 <= k < info.slots@.len(),
        !info.slots@[k].is_static,
    ensures
        info.signals@.len() <= info.signals@.len() + instance_count(info.methods@, i)
            < info.signals@.len() + instance_count(info.methods@, info.methods@.len() as int),
        info.signals@.len() + instance_count(info.methods@, info.methods@.len() as int)
            <= info.signals@.len() + instance_count(info.methods@, info.methods@.len() as int)
            + instance_count(info.slots@, k) < method_total(info),
{
    lemma_instance_count(info.methods@, i);
    lemma_instance_count(info.slots@, k);
    lemma_instance_count_mono(info.methods@, i + 1, info.methods@.len() as int);
    lemma_instance_count_mono(info.slots@, k + 1, info.slots@.len() as int);
}

/// Two entries of one list have different numbers, in the list's order.
pub proof fn law_method_numbers_distinct(v: Seq<MethodInfo>, i: int, j: int)
    requires
        0 <= i < j < v.len(),
        !v[i].is_static,
    ensures
        instance_count(v, i) < instance_count(v, j),
{
    lemma_instance_count_mono(v, i + 1, j);
}

proof fn lemma_instance_count_mono(v: Seq<MethodInfo>, a: int, b: int)
    requires
        0 <= a <= b,
    ensures
        instance_count(v, a) <= instance_count(v, b),
    decreases b - a,
{
    if a < b {
        lemma_instance_count_mono(v, a, b - 1);
    }
}

} // verus!
