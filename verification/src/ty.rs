//! C++ names of types.

use crate::ast::{FileId, Ident, Param, Span, TypeExpr, TypeKind};
use crate::dict::Dict;
use crate::text::{join, joined, lemma_views_push, same, views};
use vstd::prelude::*;
use vstd::string::*;

verus! {

// ---- resolved programs ------------------------------------------------------------

/// What a declared name is.
#[derive(Debug, Clone, Copy, PartialEq, Eq, Structural)]
pub enum ItemKind {
    Class { is_qobject_derived: bool, is_extern_value: bool },
    Struct,
    Enum,
    Flags,
    Fn,
    Trait,
    Let,
    View,
    Widget,
    Style,
}

/// The declarations of a program, by name, and the error type of `!T` where
/// the program has one.
#[derive(Debug)]
pub struct ResolvedProgram {
    pub items: Dict<ItemKind>,
    pub default_error_type: Option<String>,
}

/// What the lowering of types needs to know.
#[derive(Debug)]
pub struct TypeCtx<'a> {
    pub program: &'a ResolvedProgram,
}

impl<'a> TypeCtx<'a> {
    pub fn new(program: &'a ResolvedProgram) -> (r: TypeCtx<'a>)
        ensures
            *r.program == *program,
    {
        TypeCtx { program }
    }
}

/// `name` is declared as a class that derives from `QObject`.
pub open spec fn is_qobject(p: ResolvedProgram, name: Seq<char>) -> bool {
    p.items@.contains_key(name) && match p.items@[name] {
        ItemKind::Class { is_qobject_derived, .. } => is_qobject_derived,
        _ => false,
    }
}

/// `name` is declared as a reference-counted class.
pub open spec fn is_arc_class(p: ResolvedProgram, name: Seq<char>) -> bool {
    p.items@.contains_key(name) && match p.items@[name] {
        ItemKind::Class { is_qobject_derived, is_extern_value } => !is_qobject_derived
            && !is_extern_value,
        _ => false,
    }
}

/// Whether `name` is declared as a class that derives from `QObject`.
pub fn is_qobject_named(name: &str, ctx: &TypeCtx<'_>) -> (r: bool)
    ensures
        r == is_qobject(*ctx.program, name@),
{
    match ctx.program.items.get(name) {
        Some(ItemKind::Class { is_qobject_derived, .. }) => *is_qobject_derived,
        _ => false,
    }
}

/// Whether `name` is declared as a reference-counted class: one that neither
/// derives from `QObject` nor is a foreign value type.
pub fn is_arc_class_named(name: &str, ctx: &TypeCtx<'_>) -> (r: bool)
    ensures
        r == is_arc_class(*ctx.program, name@),
{
    match ctx.program.items.get(name) {
        Some(ItemKind::Class { is_qobject_derived, is_extern_value }) => !*is_qobject_derived
            && !*is_extern_value,
        _ => false,
    }
}

// ---- shapes -------------------------------------------------------------------------

/// A type as its C++ name depends on it: a name is known by its last segment,
/// and a path without segments has none.
pub enum Shape {
    Named(Option<Seq<char>>, Seq<Shape>),
    Nullable(Box<Shape>),
    ErrorUnion(Box<Shape>),
    Fn(Seq<Shape>, Box<Shape>),
    SelfType,
}

/// The last segment of a path.
pub open spec fn leaf(path: Seq<Ident>) -> Option<Seq<char>> {
    if path.len() == 0 {
        None
    } else {
        Some(path.last().name@)
    }
}

/// The shape of a written type.
pub open spec fn shape(t: TypeExpr) -> Shape
    decreases t, 0int,
{
    match t.kind {
        TypeKind::Named { path, args } => Shape::Named(
            leaf(path@),
            shapes(args, args@.len() as int),
        ),
        TypeKind::Nullable(inner) => Shape::Nullable(Box::new(shape(*inner))),
        TypeKind::ErrorUnion(inner) => Shape::ErrorUnion(Box::new(shape(*inner))),
        TypeKind::Fn { params, ret } => Shape::Fn(
            shapes(params, params@.len() as int),
            Box::new(shape(*ret)),
        ),
        TypeKind::SelfType => Shape::SelfType,
    }
}

/// The shapes of the first `n` types.
pub open spec fn shapes(v: Vec<TypeExpr>, n: int) -> Seq<Shape>
    decreases v, n,
{
    if 0 < n <= v@.len() {
        shapes(v, n - 1).push(shape(v[n - 1]))
    } else {
        Seq::empty()
    }
}

proof fn lemma_shapes(v: Vec<TypeExpr>, n: int)
    requires
        0 <= n <= v@.len(),
    ensures
        shapes(v, n).len() == n,
        forall|i: int| 0 <= i < n ==> #[trigger] shapes(v, n)[i] == shape(v[i]),
    decreases n,
{
    if n > 0 {
        lemma_shapes(v, n - 1);
    }
}

/// The name under which a leaf is shown.
pub open spec fn leaf_name(l: Option<Seq<char>>) -> Seq<char> {
    match l {
        Some(n) => n,
        None => "?"@,
    }
}

/// Containers without type arguments hold variants.
pub open spec fn bare_container(name: Seq<char>) -> Option<Seq<char>> {
    if name == "List"@ {
        Some("QVariantList"@)
    } else if name == "Map"@ {
        Some("QVariantMap"@)
    } else if name == "Hash"@ {
        Some("QVariantMap"@)
    } else {
        None
    }
}

fn bare_container_name(name: &str) -> (r: Option<&'static str>)
    ensures
        match r {
            Some(b) => bare_container(name@) == Some(b@),
            None => bare_container(name@) is None,
        },
{
    if same(name, "List") {
        Some("QVariantList")
    } else if same(name, "Map") {
        Some("QVariantMap")
    } else if same(name, "Hash") {
        Some("QVariantMap")
    } else {
        None
    }
}

/// The C++ names of predefined types.
pub open spec fn builtin(name: Seq<char>) -> Option<Seq<char>> {
    if name == "String"@ {
        Some("::cute::String"@)
    } else if name == "Bool"@ {
        Some("bool"@)
    } else if name == "Int"@ {
        Some("qint64"@)
    } else if name == "Float"@ {
        Some("double"@)
    } else if name == "Void"@ {
        Some("void"@)
    } else if name == "ByteArray"@ {
        Some("QByteArray"@)
    } else if name == "List"@ {
        Some("QList"@)
    } else if name == "Map"@ {
        Some("QMap"@)
    } else if name == "Set"@ {
        Some("QSet"@)
    } else if name == "Hash"@ {
        Some("QHash"@)
    } else if name == "Future"@ {
        Some("QFuture"@)
    } else if name == "Slice"@ {
        Some("::cute::Slice"@)
    } else if name == "Url"@ {
        Some("QUrl"@)
    } else if name == "Regex"@ {
        Some("QRegularExpression"@)
    } else if name == "Date"@ {
        Some("QDate"@)
    } else if name == "Time"@ {
        Some("QTime"@)
    } else if name == "DateTime"@ {
        Some("QDateTime"@)
    } else {
        None
    }
}

fn builtin_name(name: &str) -> (r: Option<&'static str>)
    ensures
        match r {
            Some(b) => builtin(name@) == Some(b@),
            None => builtin(name@) is None,
        },
{
    if same(name, "String") {
        Some("::cute::String")
    } else if same(name, "Bool") {
        Some("bool")
    } else if same(name, "Int") {
        Some("qint64")
    } else if same(name, "Float") {
        Some("double")
    } else if same(name, "Void") {
        Some("void")
    } else if same(name, "ByteArray") {
        Some("QByteArray")
    } else if same(name, "List") {
        Some("QList")
    } else if same(name, "Map") {
        Some("QMap")
    } else if same(name, "Set") {
        Some("QSet")
    } else if same(name, "Hash") {
        Some("QHash")
    } else if same(name, "Future") {
        Some("QFuture")
    } else if same(name, "Slice") {
        Some("::cute::Slice")
    } else if same(name, "Url") {
        Some("QUrl")
    } else if same(name, "Regex") {
        Some("QRegularExpression")
    } else if same(name, "Date") {
        Some("QDate")
    } else if same(name, "Time") {
        Some("QTime")
    } else if same(name, "DateTime") {
        Some("QDateTime")
    } else {
        None
    }
}

/// A named type.
pub open spec fn named_cpp(
    p: ResolvedProgram,
    name: Seq<char>,
    args: Seq<Seq<char>>,
) -> Seq<char> {
    if args.len() == 0 && bare_container(name) is Some {
        bare_container(name)->0
    } else if builtin(name) is Some {
        if args.len() == 0 {
            builtin(name)->0
        } else {
            builtin(name)->0 + "<"@ + join(args, ", "@) + ">"@
        }
    } else if args.len() == 0 {
        if is_qobject(p, name) {
            name + "*"@
        } else if is_arc_class(p, name) {
            "::cute::Arc<"@ + name + ">"@
        } else {
            name
        }
    } else if is_arc_class(p, name) {
        "::cute::Arc<"@ + name + "<"@ + join(args, ", "@) + ">>"@
    } else {
        name + "<"@ + join(args, ", "@) + ">"@
    }
}

/// `name` is declared as a class or as a type of values.
pub open spec fn is_declared_type(p: ResolvedProgram, name: Seq<char>) -> bool {
    p.items@.contains_key(name) && match p.items@[name] {
        ItemKind::Class { .. } | ItemKind::Struct | ItemKind::Enum | ItemKind::Flags => true,
        _ => false,
    }
}

/// `T?` is a guarded pointer: `T` is declared as a `QObject` class, or is no
/// declared type and its name starts with `Q`.
pub open spec fn pointer_leaf(p: ResolvedProgram, l: Option<Seq<char>>) -> bool {
    match l {
        Some(name) => if is_declared_type(p, name) {
            is_qobject(p, name)
        } else {
            name.len() > 0 && name[0] == 'Q'
        },
        None => false,
    }
}

/// The error type of `!T`.
pub open spec fn error_type(p: ResolvedProgram) -> Seq<char> {
    match p.default_error_type {
        Some(e) => e@,
        None => "::cute::String /* unbound error type */"@,
    }
}

/// The C++ name of a type.
pub open spec fn cpp(p: ResolvedProgram, s: Shape) -> Seq<char>
    decreases s, 0int,
{
    match s {
        Shape::Named(l, args) => named_cpp(p, leaf_name(l), cpps(p, args, args.len() as int)),
        Shape::Nullable(inner) => match *inner {
            Shape::Named(l, args) => if pointer_leaf(p, l) {
                if args.len() == 0 {
                    "QPointer<"@ + leaf_name(l) + ">"@
                } else {
                    "QPointer<"@ + leaf_name(l) + "<"@ + join(
                        cpps(p, args, args.len() as int),
                        ", "@,
                    ) + ">>"@
                }
            } else {
                "std::optional<"@ + cpp(p, *inner) + ">"@
            },
            _ => "std::optional<"@ + cpp(p, *inner) + ">"@,
        },
        Shape::ErrorUnion(inner) => "::cute::Result<"@ + cpp(p, *inner) + ", "@ + error_type(p)
            + ">"@,
        Shape::Fn(params, ret) => function_cpp(
            "std::function<"@,
            cpp(p, *ret),
            cpps(p, params, params.len() as int),
        ),
        Shape::SelfType => "auto /* Self */"@,
    }
}

/// The C++ names of the first `n` types.
pub open spec fn cpps(p: ResolvedProgram, v: Seq<Shape>, n: int) -> Seq<Seq<char>>
    decreases v, n,
{
    if 0 < n <= v.len() {
        cpps(p, v, n - 1).push(cpp(p, v[n - 1]))
    } else {
        Seq::empty()
    }
}

/// `<head>R(A, B)>`.
pub open spec fn function_cpp(
    head: Seq<char>,
    ret: Seq<char>,
    params: Seq<Seq<char>>,
) -> Seq<char> {
    head + ret + "("@ + join(params, ", "@) + ")>"@
}

// ---- written types --------------------------------------------------------------------

fn path_leaf(path: &Vec<Ident>) -> (r: String)
    ensures
        r@ == leaf_name(leaf(path@)),
{
    if path.len() == 0 {
        "?".to_owned()
    } else {
        path[path.len() - 1].name.clone()
    }
}

/// Whether `T?` is a guarded pointer rather than an optional value.
pub fn is_pointer_class(ty: &TypeExpr, ctx: &TypeCtx<'_>) -> (r: bool)
    ensures
        r == match ty.kind {
            TypeKind::Named { path, .. } => pointer_leaf(*ctx.program, leaf(path@)),
            _ => false,
        },
{
    match &ty.kind {
        TypeKind::Named { path, .. } => {
            if path.len() == 0 {
                return false;
            }
            let name = path[path.len() - 1].name.as_str();
            match ctx.program.items.get(name) {
                Some(ItemKind::Class { is_qobject_derived, .. }) => *is_qobject_derived,
                Some(ItemKind::Struct) | Some(ItemKind::Enum) | Some(ItemKind::Flags) => false,
                _ => {
                    let v = crate::text::chars_of(name);
                    v.len() > 0 && v[0] == 'Q'
                },
            }
        },
        _ => false,
    }
}

fn named_to_cpp(name: &str, args: &Vec<String>, ctx: &TypeCtx<'_>) -> (r: String)
    ensures
        r@ == named_cpp(*ctx.program, name@, views(args@)),
{
    assert(views(args@).len() == args@.len());
    if args.len() == 0 {
        match bare_container_name(name) {
            Some(b) => {
                return b.to_owned();
            },
            None => {},
        }
    }
    match builtin_name(name) {
        Some(base) => {
            if args.len() == 0 {
                return base.to_owned();
            }
            return base.to_owned().concat("<").concat(joined(args, ", ").as_str()).concat(">");
        },
        None => {},
    }
    if args.len() == 0 {
        if is_qobject_named(name, ctx) {
            return name.to_owned().concat("*");
        }
        if is_arc_class_named(name, ctx) {
            return "::cute::Arc<".to_owned().concat(name).concat(">");
        }
        return name.to_owned();
    }
    let a = joined(args, ", ");
    if is_arc_class_named(name, ctx) {
        return "::cute::Arc<".to_owned().concat(name).concat("<").concat(a.as_str()).concat(">>");
    }
    name.to_owned().concat("<").concat(a.as_str()).concat(">")
}

fn types_to_cpp(v: &Vec<TypeExpr>, ctx: &TypeCtx<'_>) -> (r: Vec<String>)
    ensures
        views(r@) == cpps(*ctx.program, shapes(*v, v@.len() as int), v@.len() as int),
    decreases *v,
{
    let ghost p = *ctx.program;
    let ghost sh = shapes(*v, v@.len() as int);
    let mut out: Vec<String> = Vec::new();
    let mut i: usize = 0;
    proof {
        lemma_shapes(*v, v@.len() as int);
        assert(views(out@) =~= cpps(p, sh, 0));
    }
    while i < v.len()
        invariant
            i <= v@.len(),
            p == *ctx.program,
            sh.len() == v@.len(),
            forall|k: int| 0 <= k < v@.len() ==> #[trigger] sh[k] == shape(v[k]),
            views(out@) == cpps(p, sh, i as int),
        decreases v@.len() - i,
    {
        assert(decreases_to!(*v => v[i as int]));
        let s = cute_to_cpp(&v[i], ctx);
        proof {
            lemma_views_push(out@, s);
            assert(sh[i as int] == shape(v[i as int]));
        }
        out.push(s);
        i += 1;
    }
    out
}

/// The C++ name of a written type. Containers map to their Qt counterparts, a
/// class that derives from `QObject` to a pointer, and a reference-counted
/// class to its smart pointer.
pub fn cute_to_cpp(ty: &TypeExpr, ctx: &TypeCtx<'_>) -> (r: String)
    ensures
        r@ == cpp(*ctx.program, shape(*ty)),
    decreases *ty,
{
    match &ty.kind {
        TypeKind::Named { path, args } => {
            proof {
                lemma_shapes(*args, args@.len() as int);
            }
            let a = types_to_cpp(args, ctx);
            named_to_cpp(path_leaf(path).as_str(), &a, ctx)
        },
        TypeKind::Nullable(inner) => {
            if is_pointer_class(inner, ctx) {
                match &inner.kind {
                    TypeKind::Named { path, args } => {
                        proof {
                            lemma_shapes(*args, args@.len() as int);
                            assert(shape(**inner) == Shape::Named(
                                leaf(path@),
                                shapes(*args, args@.len() as int),
                            ));
                        }
                        let name = path_leaf(path);
                        if args.len() == 0 {
                            return "QPointer<".to_owned().concat(name.as_str()).concat(">");
                        }
                        let a = types_to_cpp(args, ctx);
                        return "QPointer<".to_owned().concat(name.as_str()).concat("<").concat(
                            joined(&a, ", ").as_str(),
                        ).concat(">>");
                    },
                    _ => {},
                }
            }
            let i = cute_to_cpp(inner, ctx);
            "std::optional<".to_owned().concat(i.as_str()).concat(">")
        },
        TypeKind::ErrorUnion(inner) => {
            let i = cute_to_cpp(inner, ctx);
            let err = match &ctx.program.default_error_type {
                Some(e) => e.clone(),
                None => "::cute::String /* unbound error type */".to_owned(),
            };
            "::cute::Result<".to_owned().concat(i.as_str()).concat(", ").concat(err.as_str()).concat(
                ">",
            )
        },
        TypeKind::Fn { params, ret } => {
            proof {
                lemma_shapes(*params, params@.len() as int);
            }
            let ps = types_to_cpp(params, ctx);
            let r = cute_to_cpp(ret, ctx);
            "std::function<".to_owned().concat(r.as_str()).concat("(").concat(
                joined(&ps, ", ").as_str(),
            ).concat(")>")
        },
        TypeKind::SelfType => "auto /* Self */".to_owned(),
    }
}

/// The C++ type of a parameter: a function type that does not escape is
/// borrowed.
pub open spec fn param_cpp(p: ResolvedProgram, is_escaping: bool, s: Shape) -> Seq<char> {
    match s {
        Shape::Fn(params, ret) => if is_escaping {
            cpp(p, s)
        } else {
            function_cpp(
                "::cute::function_ref<"@,
                cpp(p, *ret),
                cpps(p, params, params.len() as int),
            )
        },
        _ => cpp(p, s),
    }
}

/// The C++ type of a parameter.
pub fn cute_param_to_cpp(p: &Param, ctx: &TypeCtx<'_>) -> (r: String)
    ensures
        r@ == param_cpp(*ctx.program, p.is_escaping, shape(p.ty)),
{
    if !p.is_escaping {
        match &p.ty.kind {
            TypeKind::Fn { params, ret } => {
                proof {
                    lemma_shapes(*params, params@.len() as int);
                }
                let ps = types_to_cpp(params, ctx);
                let r = cute_to_cpp(ret, ctx);
                return "::cute::function_ref<".to_owned().concat(r.as_str()).concat("(").concat(
                    joined(&ps, ", ").as_str(),
                ).concat(")>");
            },
            _ => {},
        }
    }
    cute_to_cpp(&p.ty, ctx)
}

/// The meta-type of a property type.
pub open spec fn meta_type(t: TypeExpr) -> Seq<char> {
    match t.kind {
        TypeKind::Named { path, .. } => match leaf(path@) {
            Some(name) => if name == "Void"@ {
                "QMetaType::Void"@
            } else if name == "Bool"@ {
                "QMetaType::Bool"@
            } else if name == "Int"@ {
                "QMetaType::LongLong"@
            } else if name == "Float"@ {
                "QMetaType::Double"@
            } else if name == "String"@ {
                "QMetaType::QString"@
            } else {
                "QMetaType::QObjectStar"@
            },
            None => "QMetaType::Void"@,
        },
        _ => "QMetaType::Void"@,
    }
}

/// The `QMetaType` enumerator of a property type.
pub fn cute_to_qmeta_type_enum(ty: &TypeExpr) -> (r: &'static str)
    ensures
        r@ == meta_type(*ty),
{
    match &ty.kind {
        TypeKind::Named { path, .. } => {
            if path.len() == 0 {
                return "QMetaType::Void";
            }
            let name = path[path.len() - 1].name.as_str();
            if same(name, "Void") {
                "QMetaType::Void"
            } else if same(name, "Bool") {
                "QMetaType::Bool"
            } else if same(name, "Int") {
                "QMetaType::LongLong"
            } else if same(name, "Float") {
                "QMetaType::Double"
            } else if same(name, "String") {
                "QMetaType::QString"
            } else {
                "QMetaType::QObjectStar"
            }
        },
        _ => "QMetaType::Void",
    }
}

/// Whether a property of this type is passed by constant reference: strings
/// are.
pub fn pass_by_const_ref(ty: &TypeExpr) -> (r: bool)
    ensures
        r == match ty.kind {
            TypeKind::Named { path, .. } => leaf(path@) == Some("String"@),
            _ => false,
        },
{
    match &ty.kind {
        TypeKind::Named { path, .. } => {
            if path.len() == 0 {
                return false;
            }
            same(path[path.len() - 1].name.as_str(), "String")
        },
        _ => false,
    }
}

// ---- inferred types ---------------------------------------------------------------------

#[derive(Debug, Clone, Copy, PartialEq, Eq, Structural)]
pub enum Prim {
    Bool,
    Int,
    Float,
    String,
    Void,
    Nil,
}

/// A type as the type checker knows it.
#[derive(Debug)]
pub enum Type {
    Prim(Prim),
    Class(String),
    External(String),
    Enum(String),
    Flags(String),
    Generic { base: String, args: Vec<Type> },
    Nullable(Box<Type>),
    ErrorUnion { ok: Box<Type>, err: String },
    Fn { params: Vec<Type>, ret: Box<Type> },
    Sym,
    SignalRef { params: Vec<Type> },
    Var(u32),
    Error,
    Unknown,
}

/// The name of a primitive type in source text.
pub open spec fn prim_name(p: Prim) -> Seq<char> {
    match p {
        Prim::Bool => "Bool"@,
        Prim::Int => "Int"@,
        Prim::Float => "Float"@,
        Prim::String => "String"@,
        Prim::Void => "Void"@,
        Prim::Nil => "Nil"@,
    }
}

/// The shape of the written type that stands for a known type.
pub open spec fn type_shape(t: Type) -> Shape
    decreases t, 0int,
{
    match t {
        Type::Prim(p) => Shape::Named(Some(prim_name(p)), Seq::empty()),
        Type::Class(n) | Type::External(n) | Type::Enum(n) | Type::Flags(n) => Shape::Named(
            Some(n@),
            Seq::empty(),
        ),
        Type::Generic { base, args } => Shape::Named(
            Some(base@),
            type_shapes(args, args@.len() as int),
        ),
        Type::Nullable(inner) => Shape::Nullable(Box::new(type_shape(*inner))),
        Type::ErrorUnion { ok, .. } => Shape::ErrorUnion(Box::new(type_shape(*ok))),
        Type::Fn { params, ret } => Shape::Fn(
            type_shapes(params, params@.len() as int),
            Box::new(type_shape(*ret)),
        ),
        Type::Sym | Type::SignalRef { .. } | Type::Var(_) | Type::Error | Type::Unknown => Shape::Named(
            Some("Void"@),
            Seq::empty(),
        ),
    }
}

pub open spec fn type_shapes(v: Vec<Type>, n: int) -> Seq<Shape>
    decreases v, n,
{
    if 0 < n <= v@.len() {
        type_shapes(v, n - 1).push(type_shape(v[n - 1]))
    } else {
        Seq::empty()
    }
}

/// The C++ name of a known type.
pub open spec fn type_cpp(p: ResolvedProgram, t: Type) -> Seq<char>
    decreases t, 0int,
{
    match t {
        Type::Prim(Prim::Bool) => "bool"@,
        Type::Prim(Prim::Int) => "qint64"@,
        Type::Prim(Prim::Float) => "double"@,
        Type::Prim(Prim::String) => "::cute::String"@,
        Type::Prim(Prim::Void) => "void"@,
        Type::Prim(Prim::Nil) => "std::nullptr_t"@,
        Type::Class(name) | Type::External(name) => named_cpp(p, name@, Seq::empty()),
        Type::Enum(name) | Type::Flags(name) => name@,
        Type::Generic { .. } | Type::Nullable(_) => cpp(p, type_shape(t)),
        Type::ErrorUnion { ok, err } => "::cute::Result<"@ + type_cpp(p, *ok) + ", "@ + err@ + ">"@,
        Type::Fn { params, ret } => function_cpp(
            "std::function<"@,
            type_cpp(p, *ret),
            type_cpps(p, params, params@.len() as int),
        ),
        Type::Sym => "QByteArray"@,
        Type::SignalRef { .. } => "void"@,
        Type::Var(_) | Type::Error | Type::Unknown => "auto"@,
    }
}

pub open spec fn type_cpps(p: ResolvedProgram, v: Vec<Type>, n: int) -> Seq<Seq<char>>
    decreases v, n,
{
    if 0 < n <= v@.len() {
        type_cpps(p, v, n - 1).push(type_cpp(p, v[n - 1]))
    } else {
        Seq::empty()
    }
}

fn named(n: &str, args: Vec<TypeExpr>) -> (r: TypeExpr)
    ensures
        shape(r) == Shape::Named(Some(n@), shapes(args, args@.len() as int)),
{
    let blank = Span::new(FileId(0), 0, 0);
    let mut path: Vec<Ident> = Vec::new();
    path.push(Ident { name: n.to_owned(), span: blank });
    TypeExpr { kind: TypeKind::Named { path, args }, span: blank }
}

fn plain(n: &str) -> (r: TypeExpr)
    ensures
        shape(r) == Shape::Named(Some(n@), Seq::empty()),
{
    named(n, Vec::new())
}

fn synth_type_exprs(v: &Vec<Type>) -> (r: Vec<TypeExpr>)
    ensures
        r@.len() == v@.len(),
        shapes(r, r@.len() as int) == type_shapes(*v, v@.len() as int),
    decreases *v,
{
    let mut out: Vec<TypeExpr> = Vec::new();
    let mut i: usize = 0;
    while i < v.len()
        invariant
            i <= v@.len(),
            out@.len() == i,
            forall|k: int| 0 <= k < i ==> shape(#[trigger] out[k]) == type_shape(v[k]),
        decreases v@.len() - i,
    {
        assert(decreases_to!(*v => v[i as int]));
        let t = synth_type_expr(&v[i]);
        out.push(t);
        i += 1;
    }
    proof {
        lemma_synth_shapes(out, *v, v@.len() as int);
    }
    out
}

proof fn lemma_synth_shapes(a: Vec<TypeExpr>, v: Vec<Type>, n: int)
    requires
        a@.len() == v@.len(),
        0 <= n <= v@.len(),
        forall|k: int| 0 <= k < v@.len() ==> shape(#[trigger] a[k]) == type_shape(v[k]),
    ensures
        shapes(a, n) == type_shapes(v, n),
    decreases n,
{
    if n > 0 {
        lemma_synth_shapes(a, v, n - 1);
        assert(shape(a[n - 1]) == type_shape(v[n - 1]));
    }
}

/// A written type that stands for a known type.
pub fn synth_type_expr(t: &Type) -> (r: TypeExpr)
    ensures
        shape(r) == type_shape(*t),
    decreases *t,
{
    let blank = Span::new(FileId(0), 0, 0);
    match t {
        Type::Prim(Prim::Bool) => plain("Bool"),
        Type::Prim(Prim::Int) => plain("Int"),
        Type::Prim(Prim::Float) => plain("Float"),
        Type::Prim(Prim::String) => plain("String"),
        Type::Prim(Prim::Void) => plain("Void"),
        Type::Prim(Prim::Nil) => plain("Nil"),
        Type::Class(n) | Type::External(n) | Type::Enum(n) | Type::Flags(n) => plain(n.as_str()),
        Type::Generic { base, args } => named(base.as_str(), synth_type_exprs(args)),
        Type::Nullable(inner) => TypeExpr {
            kind: TypeKind::Nullable(Box::new(synth_type_expr(inner))),
            span: blank,
        },
        Type::ErrorUnion { ok, .. } => TypeExpr {
            kind: TypeKind::ErrorUnion(Box::new(synth_type_expr(ok))),
            span: blank,
        },
        Type::Fn { params, ret } => TypeExpr {
            kind: TypeKind::Fn {
                params: synth_type_exprs(params),
                ret: Box::new(synth_type_expr(ret)),
            },
            span: blank,
        },
        Type::Sym | Type::SignalRef { .. } | Type::Var(_) | Type::Error | Type::Unknown => plain(
            "Void",
        ),
    }
}

fn known_types_to_cpp(v: &Vec<Type>, ctx: &TypeCtx<'_>) -> (r: Vec<String>)
    ensures
        views(r@) == type_cpps(*ctx.program, *v, v@.len() as int),
    decreases *v,
{
    let mut out: Vec<String> = Vec::new();
    let mut i: usize = 0;
    assert(views(out@) =~= type_cpps(*ctx.program, *v, 0));
    while i < v.len()
        invariant
            i <= v@.len(),
            views(out@) == type_cpps(*ctx.program, *v, i as int),
        decreases v@.len() - i,
    {
        assert(decreases_to!(*v => v[i as int]));
        let s = cute_type_to_cpp(&v[i], ctx);
        proof {
            lemma_views_push(out@, s);
        }
        out.push(s);
        i += 1;
    }
    out
}

/// The C++ name of a known type.
pub fn cute_type_to_cpp(t: &Type, ctx: &TypeCtx<'_>) -> (r: String)
    ensures
        r@ == type_cpp(*ctx.program, *t),
    decreases *t,
{
    match t {
        Type::Prim(Prim::Bool) => "bool".to_owned(),
        Type::Prim(Prim::Int) => "qint64".to_owned(),
        Type::Prim(Prim::Float) => "double".to_owned(),
        Type::Prim(Prim::String) => "::cute::String".to_owned(),
        Type::Prim(Prim::Void) => "void".to_owned(),
        Type::Prim(Prim::Nil) => "std::nullptr_t".to_owned(),
        Type::Class(name) | Type::External(name) => {
            let none: Vec<String> = Vec::new();
            assert(views(none@) =~= Seq::<Seq<char>>::empty());
            named_to_cpp(name.as_str(), &none, ctx)
        },
        Type::Enum(name) | Type::Flags(name) => name.clone(),
        Type::Generic { .. } | Type::Nullable(_) => cute_to_cpp(&synth_type_expr(t), ctx),
        Type::ErrorUnion { ok, err } => {
            let o = cute_type_to_cpp(ok, ctx);
            "::cute::Result<".to_owned().concat(o.as_str()).concat(", ").concat(err.as_str()).concat(
                ">",
            )
        },
        Type::Fn { params, ret } => {
            let ps = known_types_to_cpp(params, ctx);
            let r = cute_type_to_cpp(ret, ctx);
            "std::function<".to_owned().concat(r.as_str()).concat("(").concat(
                joined(&ps, ", ").as_str(),
            ).concat(")>")
        },
        Type::Sym => "QByteArray".to_owned(),
        Type::SignalRef { .. } => "void".to_owned(),
        Type::Var(_) | Type::Error | Type::Unknown => "auto".to_owned(),
    }
}

// ---- laws ---------------------------------------------------------------------------

/// A known type lowers to the same C++ type as the written type that stands
/// for it: the name of a class or of an external type, a container or an option
/// over any types, and a primitive type that can be written.
pub proof fn law_known_as_written(p: ResolvedProgram, t: Type)
    requires
        match t {
            Type::Class(_) | Type::External(_) | Type::Generic { .. } | Type::Nullable(_) => true,
            Type::Prim(q) => q != Prim::Nil,
            _ => false,
        },
    ensures
        type_cpp(p, t) == cpp(p, type_shape(t)),
{
    reveal_strlit("List");
    reveal_strlit("Map");
    reveal_strlit("Hash");
    reveal_strlit("String");
    reveal_strlit("Bool");
    reveal_strlit("Int");
    reveal_strlit("Float");
    reveal_strlit("Void");
    let e = Seq::<Shape>::empty();
    assert(cpps(p, e, 0) =~= Seq::<Seq<char>>::empty());
    match t {
        Type::Class(n) => {
            assert(cpp(p, type_shape(t)) == named_cpp(p, n@, cpps(p, e, 0)));
            assert(type_cpp(p, t) == named_cpp(p, n@, Seq::empty()));
        },
        Type::External(n) => {
            assert(cpp(p, type_shape(t)) == named_cpp(p, n@, cpps(p, e, 0)));
            assert(type_cpp(p, t) == named_cpp(p, n@, Seq::empty()));
        },
        Type::Prim(q) => {
            assert("Bool"@[0] == 'B' && "Int"@[0] == 'I' && "Float"@[0] == 'F');
            assert("String"@[0] == 'S' && "Void"@[0] == 'V');
            assert("List"@[0] == 'L' && "Map"@[0] == 'M' && "Hash"@[0] == 'H');
            assert(cpp(p, type_shape(t)) == named_cpp(p, prim_name(q), cpps(p, e, 0)));
        },
        _ => {},
    }
}

/// `T?` is guarded: `T` is a name, with or without type arguments, that is
/// declared as a class that derives from `QObject`, or that is no declared type
/// and starts with `Q`.
pub open spec fn is_guarded(p: ResolvedProgram, t: TypeExpr) -> bool {
    match t.kind {
        TypeKind::Named { path, .. } => path@.len() > 0 && {
            let name = path@.last().name@;
            let foreign = name.len() > 0 && name[0] == 'Q';
            if p.items@.contains_key(name) {
                match p.items@[name] {
                    ItemKind::Class { is_qobject_derived, .. } => is_qobject_derived,
                    ItemKind::Struct | ItemKind::Enum | ItemKind::Flags => false,
                    _ => foreign,
                }
            } else {
                foreign
            }
        },
        _ => false,
    }
}

/// The C++ names of written types, one for each.
pub open spec fn all_cpp(p: ResolvedProgram, v: Vec<TypeExpr>) -> Seq<Seq<char>> {
    Seq::new(v@.len(), |i: int| cpp(p, shape(v[i])))
}

proof fn lemma_all_cpp(p: ResolvedProgram, v: Vec<TypeExpr>, n: int)
    requires
        0 <= n <= v@.len(),
    ensures
        cpps(p, shapes(v, v@.len() as int), n) == all_cpp(p, v).take(n),
    decreases n,
{
    let sh = shapes(v, v@.len() as int);
    lemma_shapes(v, v@.len() as int);
    if n > 0 {
        lemma_all_cpp(p, v, n - 1);
        assert(sh[n - 1] == shape(v[n - 1]));
        assert(all_cpp(p, v).take(n) =~= all_cpp(p, v).take(n - 1).push(cpp(p, shape(v[n - 1]))));
    } else {
        assert(all_cpp(p, v).take(0) =~= Seq::empty());
    }
}

proof fn lemma_shape_named(p: ResolvedProgram, t: TypeExpr)
    requires
        t.kind is Named,
    ensures
        ({
            let args = t.kind->args;
            let sh = shapes(args, args@.len() as int);
            &&& shape(t) == Shape::Named(leaf(t.kind->path@), sh)
            &&& sh.len() == args@.len()
            &&& cpps(p, sh, sh.len() as int) == all_cpp(p, args)
            &&& all_cpp(p, args).len() == args@.len()
            &&& cpp(p, shape(t)) == named_cpp(p, leaf_name(leaf(t.kind->path@)), all_cpp(p, args))
        }),
{
    let args = t.kind->args;
    lemma_shapes(args, args@.len() as int);
    lemma_all_cpp(p, args, args@.len() as int);
    assert(all_cpp(p, args).take(args@.len() as int) =~= all_cpp(p, args));
}

/// An option over `T` that is not guarded holds the whole of `T`, whatever its
/// form: its C++ name is that of `T` inside `std::optional`.
pub proof fn law_options_hold_their_type(p: ResolvedProgram, t: TypeExpr)
    requires
        t.kind is Nullable,
        !is_guarded(p, *t.kind->Nullable_0),
    ensures
        cpp(p, shape(t)) == "std::optional<"@ + cpp(p, shape(*t.kind->Nullable_0)) + ">"@,
{
    let inner = *t.kind->Nullable_0;
    assert(shape(t) == Shape::Nullable(Box::new(shape(inner))));
    if inner.kind is Named {
        lemma_shape_named(p, inner);
    }
}

/// A guarded option is a `QPointer` over the class by its own name, with its
/// type arguments.
pub proof fn law_guarded_options_are_pointers(p: ResolvedProgram, t: TypeExpr)
    requires
        t.kind is Nullable,
        is_guarded(p, *t.kind->Nullable_0),
    ensures
        ({
            let name = t.kind->Nullable_0.kind->path@.last().name@;
            let args = t.kind->Nullable_0.kind->args;
            cpp(p, shape(t)) == if args@.len() == 0 {
                "QPointer<"@ + name + ">"@
            } else {
                "QPointer<"@ + name + "<"@ + join(all_cpp(p, args), ", "@) + ">>"@
            }
        }),
{
    let inner = *t.kind->Nullable_0;
    assert(shape(t) == Shape::Nullable(Box::new(shape(inner))));
    lemma_shape_named(p, inner);
}

/// An option is never the type that it is an option over.
pub proof fn law_options_differ_from_their_type(p: ResolvedProgram, t: TypeExpr)
    requires
        t.kind is Nullable,
    ensures
        cpp(p, shape(t)) != cpp(p, shape(*t.kind->Nullable_0)),
{
    let inner = *t.kind->Nullable_0;
    if is_guarded(p, inner) {
        law_guarded_options_are_pointers(p, t);
        lemma_shape_named(p, inner);
        let name = inner.kind->path@.last().name@;
        let j = join(all_cpp(p, inner.kind->args), ", "@);
        reveal_strlit("QPointer<");
        reveal_strlit(">");
        reveal_strlit(">>");
        reveal_strlit("<");
        reveal_strlit("*");
        reveal_strlit("::cute::Arc<");
        reveal_strlit("List");
        reveal_strlit("QVariantList");
        reveal_strlit("Map");
        reveal_strlit("QVariantMap");
        reveal_strlit("Hash");
        lemma_builtin_lengths(name);
        if inner.kind->args@.len() == 0 {
            assert(cpp(p, shape(t)).len() == name.len() + 10);
        } else {
            assert(cpp(p, shape(t)).len() == name.len() + j.len() + 12);
        }
    } else {
        law_options_hold_their_type(p, t);
        reveal_strlit("std::optional<");
    }
}

/// No predefined C++ name is ten longer than the name that it stands for.
proof fn lemma_builtin_lengths(name: Seq<char>)
    ensures
        builtin(name) is Some ==> builtin(name)->0.len() != name.len() + 10,
{
    reveal_strlit("String");
    reveal_strlit("::cute::String");
    reveal_strlit("Bool");
    reveal_strlit("bool");
    reveal_strlit("Int");
    reveal_strlit("qint64");
    reveal_strlit("Float");
    reveal_strlit("double");
    reveal_strlit("Void");
    reveal_strlit("void");
    reveal_strlit("ByteArray");
    reveal_strlit("QByteArray");
    reveal_strlit("List");
    reveal_strlit("QList");
    reveal_strlit("Map");
    reveal_strlit("QMap");
    reveal_strlit("Set");
    reveal_strlit("QSet");
    reveal_strlit("Hash");
    reveal_strlit("QHash");
    reveal_strlit("Future");
    reveal_strlit("QFuture");
    reveal_strlit("Slice");
    reveal_strlit("::cute::Slice");
    reveal_strlit("Url");
    reveal_strlit("QUrl");
    reveal_strlit("Regex");
    reveal_strlit("QRegularExpression");
    reveal_strlit("Date");
    reveal_strlit("QDate");
    reveal_strlit("Time");
    reveal_strlit("QTime");
    reveal_strlit("DateTime");
    reveal_strlit("QDateTime");
}

/// A type that can fail holds the whole of the type and the error type of the
/// program.
pub proof fn law_failing_types_hold_both(p: ResolvedProgram, t: TypeExpr)
    requires
        t.kind is ErrorUnion,
    ensures
        cpp(p, shape(t)) == "::cute::Result<"@ + cpp(p, shape(*t.kind->ErrorUnion_0)) + ", "@ + (
        match p.default_error_type {
            Some(e) => e@,
            None => "::cute::String /* unbound error type */"@,
        }) + ">"@,
{
    assert(shape(t) == Shape::ErrorUnion(Box::new(shape(*t.kind->ErrorUnion_0))));
}

/// A function type names the C++ types of its result and of every parameter, in
/// their order.
pub proof fn law_function_types_hold_all(p: ResolvedProgram, t: TypeExpr)
    requires
        t.kind is Fn,
    ensures
        cpp(p, shape(t)) == "std::function<"@ + cpp(p, shape(*t.kind->ret)) + "("@ + join(
            all_cpp(p, t.kind->params),
            ", "@,
        ) + ")>"@,
{
    let v = t.kind->params;
    lemma_shapes(v, v@.len() as int);
    lemma_all_cpp(p, v, v@.len() as int);
    assert(all_cpp(p, v).take(v@.len() as int) =~= all_cpp(p, v));
    assert(shape(t) == Shape::Fn(shapes(v, v@.len() as int), Box::new(shape(*t.kind->ret))));
}

/// A function that does not escape is borrowed: the C++ type of such a
/// parameter differs from the type's own in its head alone. Every other
/// parameter has the C++ type of its type.
pub proof fn law_parameters_borrow_functions(p: ResolvedProgram, is_escaping: bool, t: TypeExpr)
    ensures
        is_escaping || !(t.kind is Fn) ==> param_cpp(p, is_escaping, shape(t)) == cpp(p, shape(t)),
        !is_escaping && t.kind is Fn ==> exists|tail: Seq<char>|
            cpp(p, shape(t)) == "std::function<"@ + tail && param_cpp(p, is_escaping, shape(t))
                == #[trigger] ("::cute::function_ref<"@ + tail),
{
    if t.kind is Fn {
        let v = t.kind->params;
        law_function_types_hold_all(p, t);
        lemma_shapes(v, v@.len() as int);
        let sh = shapes(v, v@.len() as int);
        let r = cpp(p, shape(*t.kind->ret));
        assert(shape(t) == Shape::Fn(sh, Box::new(shape(*t.kind->ret))));
        let a = join(cpps(p, sh, sh.len() as int), ", "@);
        let tail = r + "("@ + a + ")>"@;
        assert(cpp(p, shape(t)) =~= "std::function<"@ + tail);
        if !is_escaping {
            assert(param_cpp(p, is_escaping, shape(t)) =~= "::cute::function_ref<"@ + tail);
        }
    } else if t.kind is Named {
        lemma_shape_named(p, t);
    }
}

/// Only the last segment of a path and the type arguments decide the C++ name.
pub proof fn law_last_segments_decide(p: ResolvedProgram, a: TypeExpr, b: TypeExpr)
    requires
        a.kind is Named,
        b.kind is Named,
        a.kind->path@.len() > 0,
        b.kind->path@.len() > 0,
        a.kind->path@.last().name@ == b.kind->path@.last().name@,
        all_cpp(p, a.kind->args) == all_cpp(p, b.kind->args),
    ensures
        cpp(p, shape(a)) == cpp(p, shape(b)),
{
    lemma_shape_named(p, a);
    lemma_shape_named(p, b);
}

/// A class that derives from `QObject` is a pointer, another class of the
/// language a counted reference, with its type arguments inside, and every other
/// name stands for itself.
pub proof fn law_classes_are_held_by_kind(p: ResolvedProgram, t: TypeExpr)
    requires
        t.kind is Named,
        t.kind->path@.len() > 0,
        builtin(t.kind->path@.last().name@) is None,
    ensures
        ({
            let name = t.kind->path@.last().name@;
            let args = all_cpp(p, t.kind->args);
            let whole = if args.len() == 0 {
                name
            } else {
                name + "<"@ + join(args, ", "@) + ">"@
            };
            let known = p.items@.contains_key(name);
            cpp(p, shape(t)) == match p.items@[name] {
                ItemKind::Class { is_qobject_derived: true, .. } if known => if args.len() == 0 {
                    name + "*"@
                } else {
                    whole
                },
                ItemKind::Class { is_qobject_derived: false, is_extern_value: false } if known =>
                    "::cute::Arc<"@ + whole + ">"@,
                _ => whole,
            }
        }),
{
    lemma_shape_named(p, t);
    let name = t.kind->path@.last().name@;
    let j = join(all_cpp(p, t.kind->args), ", "@);
    assert("::cute::Arc<"@ + name + "<"@ + j + ">>"@ =~= "::cute::Arc<"@ + (name + "<"@ + j + ">"@)
        + ">"@) by {
        reveal_strlit(">");
        reveal_strlit(">>");
    }
}

/// A predefined type with type arguments is its C++ template over the C++ names
/// of all of them.
pub proof fn law_templates_hold_all_arguments(p: ResolvedProgram, t: TypeExpr)
    requires
        t.kind is Named,
        t.kind->path@.len() > 0,
        builtin(t.kind->path@.last().name@) is Some,
        t.kind->args@.len() > 0,
    ensures
        cpp(p, shape(t)) == builtin(t.kind->path@.last().name@)->0 + "<"@ + join(
            all_cpp(p, t.kind->args),
            ", "@,
        ) + ">"@,
{
    lemma_shape_named(p, t);
}

/// The predefined types that Qt has are Qt's own, and those of the runtime stand
/// in its namespace.
pub proof fn law_qt_types_keep_their_names(name: Seq<char>)
    requires
        name == "ByteArray"@ || name == "List"@ || name == "Map"@ || name == "Set"@ || name
            == "Hash"@ || name == "Future"@ || name == "Url"@ || name == "Date"@ || name == "Time"@
            || name == "DateTime"@ || name == "String"@ || name == "Slice"@,
    ensures
        builtin(name) is Some,
        builtin(name)->0 == if name == "String"@ || name == "Slice"@ {
            "::cute::"@ + name
        } else {
            "Q"@ + name
        },
{
    reveal_strlit("Q");
    reveal_strlit("::cute::");
    reveal_strlit("String");
    reveal_strlit("::cute::String");
    reveal_strlit("Bool");
    reveal_strlit("Int");
    reveal_strlit("Float");
    reveal_strlit("Void");
    reveal_strlit("ByteArray");
    reveal_strlit("QByteArray");
    reveal_strlit("List");
    reveal_strlit("QList");
    reveal_strlit("Map");
    reveal_strlit("QMap");
    reveal_strlit("Set");
    reveal_strlit("QSet");
    reveal_strlit("Hash");
    reveal_strlit("QHash");
    reveal_strlit("Future");
    reveal_strlit("QFuture");
    reveal_strlit("Slice");
    reveal_strlit("::cute::Slice");
    reveal_strlit("Url");
    reveal_strlit("QUrl");
    reveal_strlit("Regex");
    reveal_strlit("Date");
    reveal_strlit("QDate");
    reveal_strlit("Time");
    reveal_strlit("QTime");
    reveal_strlit("DateTime");
    reveal_strlit("QDateTime");
    if name == "ByteArray"@ {
        assert("ByteArray"@.len() != "String"@.len());
        assert("ByteArray"@.len() != "Bool"@.len());
        assert("ByteArray"@.len() != "Int"@.len());
        assert("ByteArray"@.len() != "Float"@.len());
        assert("ByteArray"@.len() != "Void"@.len());
        assert("ByteArray"@.len() != "Slice"@.len());
        assert("QByteArray"@ =~= "Q"@ + "ByteArray"@);
    }
    if name == "List"@ {
        assert("List"@.len() != "String"@.len());
        assert("List"@[0] != "Bool"@[0]);
        assert("List"@.len() != "Int"@.len());
        assert("List"@.len() != "Float"@.len());
        assert("List"@[0] != "Void"@[0]);
        assert("List"@.len() != "ByteArray"@.len());
        assert("List"@.len() != "Slice"@.len());
        assert("QList"@ =~= "Q"@ + "List"@);
    }
    if name == "Map"@ {
        assert("Map"@.len() != "String"@.len());
        assert("Map"@.len() != "Bool"@.len());
        assert("Map"@[0] != "Int"@[0]);
        assert("Map"@.len() != "Float"@.len());
        assert("Map"@.len() != "Void"@.len());
        assert("Map"@.len() != "ByteArray"@.len());
        assert("Map"@.len() != "List"@.len());
        assert("Map"@.len() != "Slice"@.len());
        assert("QMap"@ =~= "Q"@ + "Map"@);
    }
    if name == "Set"@ {
        assert("Set"@.len() != "String"@.len());
        assert("Set"@.len() != "Bool"@.len());
        assert("Set"@[0] != "Int"@[0]);
        assert("Set"@.len() != "Float"@.len());
        assert("Set"@.len() != "Void"@.len());
        assert("Set"@.len() != "ByteArray"@.len());
        assert("Set"@.len() != "List"@.len());
        assert("Set"@[0] != "Map"@[0]);
        assert("Set"@.len() != "Slice"@.len());
        assert("QSet"@ =~= "Q"@ + "Set"@);
    }
    if name == "Hash"@ {
        assert("Hash"@.len() != "String"@.len());
        assert("Hash"@[0] != "Bool"@[0]);
        assert("Hash"@.len() != "Int"@.len());
        assert("Hash"@.len() != "Float"@.len());
        assert("Hash"@[0] != "Void"@[0]);
        assert("Hash"@.len() != "ByteArray"@.len());
        assert("Hash"@[0] != "List"@[0]);
        assert("Hash"@.len() != "Map"@.len());
        assert("Hash"@.len() != "Set"@.len());
        assert("Hash"@.len() != "Slice"@.len());
        assert("QHash"@ =~= "Q"@ + "Hash"@);
    }
    if name == "Future"@ {
        assert("Future"@[0] != "String"@[0]);
        assert("Future"@.len() != "Bool"@.len());
        assert("Future"@.len() != "Int"@.len());
        assert("Future"@.len() != "Float"@.len());
        assert("Future"@.len() != "Void"@.len());
        assert("Future"@.len() != "ByteArray"@.len());
        assert("Future"@.len() != "List"@.len());
        assert("Future"@.len() != "Map"@.len());
        assert("Future"@.len() != "Set"@.len());
        assert("Future"@.len() != "Hash"@.len());
        assert("Future"@.len() != "Slice"@.len());
        assert("QFuture"@ =~= "Q"@ + "Future"@);
    }
    if name == "Url"@ {
        assert("Url"@.len() != "String"@.len());
        assert("Url"@.len() != "Bool"@.len());
        assert("Url"@[0] != "Int"@[0]);
        assert("Url"@.len() != "Float"@.len());
        assert("Url"@.len() != "Void"@.len());
        assert("Url"@.len() != "ByteArray"@.len());
        assert("Url"@.len() != "List"@.len());
        assert("Url"@[0] != "Map"@[0]);
        assert("Url"@[0] != "Set"@[0]);
        assert("Url"@.len() != "Hash"@.len());
        assert("Url"@.len() != "Future"@.len());
        assert("Url"@.len() != "Slice"@.len());
        assert("QUrl"@ =~= "Q"@ + "Url"@);
    }
    if name == "Date"@ {
        assert("Date"@.len() != "String"@.len());
        assert("Date"@[0] != "Bool"@[0]);
        assert("Date"@.len() != "Int"@.len());
        assert("Date"@.len() != "Float"@.len());
        assert("Date"@[0] != "Void"@[0]);
        assert("Date"@.len() != "ByteArray"@.len());
        assert("Date"@[0] != "List"@[0]);
        assert("Date"@.len() != "Map"@.len());
        assert("Date"@.len() != "Set"@.len());
        assert("Date"@[0] != "Hash"@[0]);
        assert("Date"@.len() != "Future"@.len());
        assert("Date"@.len() != "Slice"@.len());
        assert("Date"@.len() != "Url"@.len());
        assert("Date"@.len() != "Regex"@.len());
        assert("QDate"@ =~= "Q"@ + "Date"@);
    }
    if name == "Time"@ {
        assert("Time"@.len() != "String"@.len());
        assert("Time"@[0] != "Bool"@[0]);
        assert("Time"@.len() != "Int"@.len());
        assert("Time"@.len() != "Float"@.len());
        assert("Time"@[0] != "Void"@[0]);
        assert("Time"@.len() != "ByteArray"@.len());
        assert("Time"@[0] != "List"@[0]);
        assert("Time"@.len() != "Map"@.len());
        assert("Time"@.len() != "Set"@.len());
        assert("Time"@[0] != "Hash"@[0]);
        assert("Time"@.len() != "Future"@.len());
        assert("Time"@.len() != "Slice"@.len());
        assert("Time"@.len() != "Url"@.len());
        assert("Time"@.len() != "Regex"@.len());
        assert("Time"@[0] != "Date"@[0]);
        assert("QTime"@ =~= "Q"@ + "Time"@);
    }
    if name == "DateTime"@ {
        assert("DateTime"@.len() != "String"@.len());
        assert("DateTime"@.len() != "Bool"@.len());
        assert("DateTime"@.len() != "Int"@.len());
        assert("DateTime"@.len() != "Float"@.len());
        assert("DateTime"@.len() != "Void"@.len());
        assert("DateTime"@.len() != "ByteArray"@.len());
        assert("DateTime"@.len() != "List"@.len());
        assert("DateTime"@.len() != "Map"@.len());
        assert("DateTime"@.len() != "Set"@.len());
        assert("DateTime"@.len() != "Hash"@.len());
        assert("DateTime"@.len() != "Future"@.len());
        assert("DateTime"@.len() != "Slice"@.len());
        assert("DateTime"@.len() != "Url"@.len());
        assert("DateTime"@.len() != "Regex"@.len());
        assert("DateTime"@.len() != "Date"@.len());
        assert("DateTime"@.len() != "Time"@.len());
        assert("QDateTime"@ =~= "Q"@ + "DateTime"@);
    }
    if name == "String"@ {
        assert("String"@.len() != "Slice"@.len());
        assert("::cute::String"@ =~= "::cute::"@ + "String"@);
    }
    if name == "Slice"@ {
        assert("Slice"@.len() != "String"@.len());
        assert("Slice"@.len() != "Bool"@.len());
        assert("Slice"@.len() != "Int"@.len());
        assert("Slice"@[0] != "Float"@[0]);
        assert("Slice"@.len() != "Void"@.len());
        assert("Slice"@.len() != "ByteArray"@.len());
        assert("Slice"@.len() != "List"@.len());
        assert("Slice"@.len() != "Map"@.len());
        assert("Slice"@.len() != "Set"@.len());
        assert("Slice"@.len() != "Hash"@.len());
        assert("Slice"@.len() != "Future"@.len());
        assert("::cute::Slice"@ =~= "::cute::"@ + "Slice"@);
    }
}

/// A known function type names the C++ types of its result and of every
/// parameter, a known type that can fail those of its value and of its own
/// error, and an enum or a set of flags its own name.
pub proof fn law_known_types_hold_all(p: ResolvedProgram, t: Type)
    ensures
        match t {
            Type::Fn { params, ret } => type_cpp(p, t) == "std::function<"@ + type_cpp(p, *ret)
                + "("@ + join(Seq::new(params@.len(), |i: int| type_cpp(p, params[i])), ", "@)
                + ")>"@,
            Type::ErrorUnion { ok, err } => type_cpp(p, t) == "::cute::Result<"@ + type_cpp(p, *ok)
                + ", "@ + err@ + ">"@,
            Type::Enum(name) | Type::Flags(name) => type_cpp(p, t) == name@,
            _ => true,
        },
{
    if let Type::Fn { params, ret } = t {
        lemma_type_cpps(p, params, params@.len() as int);
        let all = Seq::new(params@.len(), |i: int| type_cpp(p, params[i]));
        assert(type_cpps(p, params, params@.len() as int) =~= all);
    }
}

proof fn lemma_type_cpps(p: ResolvedProgram, v: Vec<Type>, n: int)
    requires
        0 <= n <= v@.len(),
    ensures
        type_cpps(p, v, n).len() == n,
        forall|i: int| 0 <= i < n ==> #[trigger] type_cpps(p, v, n)[i] == type_cpp(p, v[i]),
    decreases n,
{
    if n > 0 {
        lemma_type_cpps(p, v, n - 1);
    }
}

/// The written type that stands for a known one keeps its form: its name, one
/// argument for each of its own, and what it is an option, a result or a
/// function over.
pub proof fn law_written_types_keep_their_form(t: Type)
    ensures
        match t {
            Type::Class(n) | Type::External(n) | Type::Enum(n) | Type::Flags(n) => type_shape(t)
                == Shape::Named(Some(n@), Seq::empty()),
            Type::Generic { base, args } => type_shape(t) matches Shape::Named(l, s) && l == Some(
                base@,
            ) && s == Seq::new(args@.len(), |i: int| type_shape(args[i])),
            Type::Nullable(inner) => type_shape(t) == Shape::Nullable(Box::new(type_shape(*inner))),
            Type::ErrorUnion { ok, .. } => type_shape(t) == Shape::ErrorUnion(
                Box::new(type_shape(*ok)),
            ),
            Type::Fn { params, ret } => type_shape(t) matches Shape::Fn(s, r) && s == Seq::new(
                params@.len(),
                |i: int| type_shape(params[i]),
            ) && *r == type_shape(*ret),
            _ => true,
        },
{
    match t {
        Type::Generic { base, args } => {
            lemma_type_shapes(args, args@.len() as int);
            assert(type_shapes(args, args@.len() as int) =~= Seq::new(
                args@.len(),
                |i: int| type_shape(args[i]),
            ));
        },
        Type::Fn { params, ret } => {
            lemma_type_shapes(params, params@.len() as int);
            assert(type_shapes(params, params@.len() as int) =~= Seq::new(
                params@.len(),
                |i: int| type_shape(params[i]),
            ));
        },
        _ => {},
    }
}

proof fn lemma_type_shapes(v: Vec<Type>, n: int)
    requires
        0 <= n <= v@.len(),
    ensures
        type_shapes(v, n).len() == n,
        forall|i: int| 0 <= i < n ==> #[trigger] type_shapes(v, n)[i] == type_shape(v[i]),
    decreases n,
{
    if n > 0 {
        lemma_type_shapes(v, n - 1);
    }
}

/// The meta-type of a property that is a number, a truth value or a string is
/// the one that a method gives for a result of the same C++ type, and every
/// other name is an object.
pub proof fn law_meta_types_follow_cpp_types(p: ResolvedProgram, t: TypeExpr)
    requires
        t.kind is Named,
        t.kind->path@.len() > 0,
    ensures
        ({
            let name = t.kind->path@.last().name@;
            if name == "Bool"@ || name == "Int"@ || name == "Float"@ || name == "String"@ || name
                == "Void"@ {
                t.kind->args@.len() == 0 ==> meta_type(t) == crate::meta::return_metatype(
                    cpp(p, shape(t)),
                )
            } else {
                meta_type(t) == "QMetaType::QObjectStar"@
            }
        }),
{
    lemma_shape_named(p, t);
    reveal_strlit("String");
    reveal_strlit("Bool");
    reveal_strlit("Int");
    reveal_strlit("Float");
    reveal_strlit("Void");
    reveal_strlit("List");
    reveal_strlit("Map");
    reveal_strlit("Hash");
    reveal_strlit("bool");
    reveal_strlit("qint64");
    reveal_strlit("double");
    reveal_strlit("void");
    reveal_strlit("::cute::String");
    reveal_strlit("QString");
    assert("Bool"@[0] == 'B' && "Int"@[0] == 'I' && "Float"@[0] == 'F');
    assert("String"@[0] == 'S' && "Void"@[0] == 'V');
    assert("List"@[0] == 'L' && "Map"@[0] == 'M' && "Hash"@[0] == 'H');
    assert("bool"@[0] == 'b' && "qint64"@[0] == 'q' && "double"@[0] == 'd');
    assert("void"@[0] == 'v' && "::cute::String"@[0] == ':');
}

} // verus!
