//! Binding files: the surface of foreign C++ classes.

use crate::ast::{
    ClassDecl, ClassMember, Field, FnDecl, Ident, InitDecl, Item, Module, Param, PropertyDecl,
    SignalDecl, TypeExpr, TypeKind, UseQml,
};
use crate::ast_copy::{
    copy_attributes, copy_block, copy_deinit_decl, copy_generic_params, copy_ident, copy_idents,
    copy_item, copy_opt_block, copy_opt_expr, copy_opt_ident, copy_opt_string, same_attributes,
    same_block, same_deinit_decl, same_generic_params, same_ident, same_idents, same_item,
    same_opt_block, same_opt_expr, same_opt_ident,
};
use crate::text::{contains_string, lemma_views_push, opt_view, same, views};
use vstd::prelude::*;
use vstd::string::*;

verus! {

/// A binding that cannot be parsed.
#[derive(Debug)]
pub enum BindingError {
    Parse { name: String, message: String },
}

impl BindingError {
    /// What is said of the error.
    pub fn message(&self) -> (r: String)
        ensures
            match *self {
                BindingError::Parse { name, message } => r@ == "failed to parse binding `"@ + name@
                    + "`: "@ + message@,
            },
    {
        match self {
            BindingError::Parse { name, message } => "failed to parse binding `".to_owned().concat(
                name.as_str(),
            ).concat("`: ").concat(message.as_str()),
        }
    }
}

/// The name that a binding has among the sources.
pub fn binding_source_name(name: &str) -> (r: String)
    ensures
        r@ == "<binding:"@ + name@ + ">"@,
{
    "<binding:".to_owned().concat(name).concat(">")
}

/// The module of a binding, where the parser gave one.
pub fn parse_qpi(name: &str, parsed: Result<Module, String>) -> (r: Result<Module, BindingError>)
    ensures
        match parsed {
            Ok(m) => r == Ok::<Module, BindingError>(m),
            Err(e) => match r {
                Err(BindingError::Parse { name: n, message }) => n@ == name@ && message@ == e@,
                Ok(_) => false,
            },
        },
{
    match parsed {
        Ok(m) => Ok(m),
        Err(e) => Err(BindingError::Parse { name: name.to_owned(), message: e }),
    }
}

// ---- QML modules ------------------------------------------------------------------

/// What is known of a QML module.
#[derive(Debug)]
pub struct QmlBinding {
    pub binding_name: &'static str,
    /// The bundled binding file, where there is one.
    pub qpi_source: Option<&'static str>,
    /// The version of the import line; none for modules without versions.
    pub default_version: Option<&'static str>,
}

/// An optional literal by its text.
pub open spec fn lit(o: Option<&'static str>) -> Option<Seq<char>> {
    match o {
        Some(s) => Some(s@),
        None => None,
    }
}

/// The binding of a known QML module: its name, and its bundled file.
pub open spec fn qml_binding(uri: Seq<char>) -> Option<(Seq<char>, Option<Seq<char>>)> {
    if uri == "QtQuick"@ {
        Some(("QtQuick"@, None))
    } else if uri == "QtQuick.Controls"@ {
        Some(("QtQuick.Controls"@, None))
    } else if uri == "QtQuick.Controls.Material"@ {
        Some(("QtQuick.Controls.Material"@, None))
    } else if uri == "QtQuick.Layouts"@ {
        Some(("QtQuick.Layouts"@, None))
    } else if uri == "org.kde.kirigami"@ {
        Some(("kirigami.qpi"@, Some("qt/kirigami.qpi"@)))
    } else if uri == "org.kde.kitemmodels"@ {
        Some(("kitemmodels.qpi"@, Some("qt/kitemmodels.qpi"@)))
    } else if uri == "org.kde.coreaddons"@ {
        Some(("kcoreaddons_qml.qpi"@, Some("qt/kcoreaddons_qml.qpi"@)))
    } else {
        None
    }
}

/// What is known of a QML module. No known module has a version.
pub fn lookup_qml_module(uri: &str) -> (r: Option<QmlBinding>)
    ensures
        match r {
            Some(b) => qml_binding(uri@) == Some((b.binding_name@, lit(b.qpi_source)))
                && b.default_version is None,
            None => qml_binding(uri@) is None,
        },
{
    if same(uri, "QtQuick") {
        Some(QmlBinding { binding_name: "QtQuick", qpi_source: None, default_version: None })
    } else if same(uri, "QtQuick.Controls") {
        Some(QmlBinding { binding_name: "QtQuick.Controls", qpi_source: None, default_version: None })
    } else if same(uri, "QtQuick.Controls.Material") {
        Some(QmlBinding { binding_name: "QtQuick.Controls.Material", qpi_source: None, default_version: None })
    } else if same(uri, "QtQuick.Layouts") {
        Some(QmlBinding { binding_name: "QtQuick.Layouts", qpi_source: None, default_version: None })
    } else if same(uri, "org.kde.kirigami") {
        Some(QmlBinding { binding_name: "kirigami.qpi", qpi_source: Some("qt/kirigami.qpi"), default_version: None })
    } else if same(uri, "org.kde.kitemmodels") {
        Some(QmlBinding { binding_name: "kitemmodels.qpi", qpi_source: Some("qt/kitemmodels.qpi"), default_version: None })
    } else if same(uri, "org.kde.coreaddons") {
        Some(QmlBinding { binding_name: "kcoreaddons_qml.qpi", qpi_source: Some("qt/kcoreaddons_qml.qpi"), default_version: None })
    } else {
        None
    }
}

// ---- namespaces -------------------------------------------------------------------

/// The classes that the first `n` items declare.
pub open spec fn class_names(items: Seq<Item>, n: int) -> Seq<Seq<char>>
    decreases n,
{
    if n <= 0 {
        Seq::empty()
    } else {
        match items[n - 1] {
            Item::Class(c) => class_names(items, n - 1).push(c.name.name@),
            _ => class_names(items, n - 1),
        }
    }
}

/// `name` under the namespace.
pub open spec fn prefixed(prefix: Seq<char>, name: Seq<char>) -> Seq<char> {
    prefix + "_"@ + name
}

/// The path with its last segment under the namespace, where it names a
/// declared class.
pub open spec fn path_namespaced(
    declared: Seq<Seq<char>>,
    prefix: Seq<char>,
    a: Vec<Ident>,
    b: Vec<Ident>,
) -> bool {
    if a@.len() > 0 && declared.contains(a@.last().name@) {
        &&& b@.len() == a@.len()
        &&& forall|i: int| 0 <= i < a@.len() - 1 ==> same_ident(#[trigger] a[i], b[i])
        &&& b@.last().name@ == prefixed(prefix, a@.last().name@)
        &&& b@.last().span == a@.last().span
    } else {
        same_idents(a, b)
    }
}

fn namespace_path(declared: &Vec<String>, prefix: &str, a: &Vec<Ident>) -> (r: Vec<Ident>)
    ensures
        path_namespaced(views(declared@), prefix@, *a, r),
{
    let n: usize = a.len();
    if n == 0 || !contains_string(declared, a[n - 1].name.as_str()) {
        return copy_idents(a);
    }
    let mut out: Vec<Ident> = Vec::new();
    let mut i: usize = 0;
    while i < n - 1
        invariant
            i <= n - 1,
            n == a@.len(),
            out@.len() == i,
            forall|k: int| 0 <= k < i ==> same_ident(#[trigger] a[k], out[k]),
        decreases n - i,
    {
        let x = copy_ident(&a[i]);
        out.push(x);
        i += 1;
    }
    out.push(
        Ident {
            name: prefix.to_owned().concat("_").concat(a[n - 1].name.as_str()),
            span: a[n - 1].span,
        },
    );
    out
}

pub open spec fn type_exprs_namespaced(
    declared: Seq<Seq<char>>,
    prefix: Seq<char>,
    a: Vec<TypeExpr>,
    b: Vec<TypeExpr>,
) -> bool
    decreases a,
{
    &&& a@.len() == b@.len()
    &&& forall|i: int| 0 <= i < a@.len() ==> type_expr_namespaced(declared, prefix, #[trigger] a[i], b[i])
}

fn namespace_type_exprs(
    declared: &Vec<String>,
    prefix: &str,
    a: &Vec<TypeExpr>,
) -> (r: Vec<TypeExpr>)
    ensures
        type_exprs_namespaced(views(declared@), prefix@, *a, r),
    decreases *a,
{
    let mut out: Vec<TypeExpr> = Vec::new();
    let mut i: usize = 0;
    while i < a.len()
        invariant
            i <= a@.len(),
            out@.len() == i,
            forall|j: int| 0 <= j < i ==> type_expr_namespaced(views(declared@), prefix@, #[trigger] a[j], out[j]),
        decreases a@.len() - i,
    {
        assert(decreases_to!(*a => a[i as int]));
        let x = namespace_type_expr(declared, prefix, &a[i]);
        out.push(x);
        i += 1;
    }
    out
}

pub open spec fn class_members_namespaced(
    declared: Seq<Seq<char>>,
    prefix: Seq<char>,
    a: Vec<ClassMember>,
    b: Vec<ClassMember>,
) -> bool
    decreases a,
{
    &&& a@.len() == b@.len()
    &&& forall|i: int| 0 <= i < a@.len() ==> class_member_namespaced(declared, prefix, #[trigger] a[i], b[i])
}

fn namespace_class_members(
    declared: &Vec<String>,
    prefix: &str,
    a: &Vec<ClassMember>,
) -> (r: Vec<ClassMember>)
    ensures
        class_members_namespaced(views(declared@), prefix@, *a, r),
    decreases *a,
{
    let mut out: Vec<ClassMember> = Vec::new();
    let mut i: usize = 0;
    while i < a.len()
        invariant
            i <= a@.len(),
            out@.len() == i,
            forall|j: int| 0 <= j < i ==> class_member_namespaced(views(declared@), prefix@, #[trigger] a[j], out[j]),
        decreases a@.len() - i,
    {
        assert(decreases_to!(*a => a[i as int]));
        let x = namespace_class_member(declared, prefix, &a[i]);
        out.push(x);
        i += 1;
    }
    out
}

pub open spec fn opt_type_expr_namespaced(
    declared: Seq<Seq<char>>,
    prefix: Seq<char>,
    a: Option<TypeExpr>,
    b: Option<TypeExpr>,
) -> bool
    decreases a,
{
    match a {
        Some(x) => b is Some && type_expr_namespaced(declared, prefix, x, b->0),
        None => b is None,
    }
}

fn namespace_opt_type_expr(
    declared: &Vec<String>,
    prefix: &str,
    a: &Option<TypeExpr>,
) -> (r: Option<TypeExpr>)
    ensures
        opt_type_expr_namespaced(views(declared@), prefix@, *a, r),
    decreases *a,
{
    match a {
        Some(x) => Some(namespace_type_expr(declared, prefix, x)),
        None => None,
    }
}

pub open spec fn type_expr_namespaced(
    declared: Seq<Seq<char>>,
    prefix: Seq<char>,
    a: TypeExpr,
    b: TypeExpr,
) -> bool
    decreases a,
{
    &&& type_kind_namespaced(declared, prefix, a.kind, b.kind)
    &&& b.span == a.span
}

fn namespace_type_expr(declared: &Vec<String>, prefix: &str, a: &TypeExpr) -> (r: TypeExpr)
    ensures
        type_expr_namespaced(views(declared@), prefix@, *a, r),
    decreases *a,
{
    TypeExpr {
        kind: namespace_type_kind(declared, prefix, &a.kind),
        span: a.span,
    }
}

pub open spec fn class_member_namespaced(
    declared: Seq<Seq<char>>,
    prefix: Seq<char>,
    a: ClassMember,
    b: ClassMember,
) -> bool
    decreases a,
{
    match a {
        ClassMember::Property(x) => match b {
            ClassMember::Property(y) => property_decl_namespaced(declared, prefix, x, y),
            _ => false,
        },
        ClassMember::Signal(x) => match b {
            ClassMember::Signal(y) => signal_decl_namespaced(declared, prefix, x, y),
            _ => false,
        },
        ClassMember::Fn(x) => match b {
            ClassMember::Fn(y) => fn_decl_namespaced(declared, prefix, x, y),
            _ => false,
        },
        ClassMember::Slot(x) => match b {
            ClassMember::Slot(y) => fn_decl_namespaced(declared, prefix, x, y),
            _ => false,
        },
        ClassMember::Field(x) => match b {
            ClassMember::Field(y) => field_namespaced(declared, prefix, x, y),
            _ => false,
        },
        ClassMember::Init(x) => match b {
            ClassMember::Init(y) => init_decl_namespaced(declared, prefix, x, y),
            _ => false,
        },
        ClassMember::Deinit(x) => match b {
            ClassMember::Deinit(y) => same_deinit_decl(x, y),
            _ => false,
        },
    }
}

fn namespace_class_member(declared: &Vec<String>, prefix: &str, a: &ClassMember) -> (r: ClassMember)
    ensures
        class_member_namespaced(views(declared@), prefix@, *a, r),
    decreases *a,
{
    match a {
        ClassMember::Property(x) => ClassMember::Property(namespace_property_decl(declared, prefix, x)),
        ClassMember::Signal(x) => ClassMember::Signal(namespace_signal_decl(declared, prefix, x)),
        ClassMember::Fn(x) => ClassMember::Fn(namespace_fn_decl(declared, prefix, x)),
        ClassMember::Slot(x) => ClassMember::Slot(namespace_fn_decl(declared, prefix, x)),
        ClassMember::Field(x) => ClassMember::Field(namespace_field(declared, prefix, x)),
        ClassMember::Init(x) => ClassMember::Init(namespace_init_decl(declared, prefix, x)),
        ClassMember::Deinit(x) => ClassMember::Deinit(copy_deinit_decl(x)),
    }
}

pub open spec fn type_kind_namespaced(
    declared: Seq<Seq<char>>,
    prefix: Seq<char>,
    a: TypeKind,
    b: TypeKind,
) -> bool
    decreases a,
{
    match a {
        TypeKind::Named { path, args } => match b {
            TypeKind::Named { path: path2, args: args2 } => {
                &&& path_namespaced(declared, prefix, path, path2)
                &&& type_exprs_namespaced(declared, prefix, args, args2)
            },
            _ => false,
        },
        TypeKind::Nullable(x) => match b {
            TypeKind::Nullable(y) => type_expr_namespaced(declared, prefix, *x, *y),
            _ => false,
        },
        TypeKind::ErrorUnion(x) => match b {
            TypeKind::ErrorUnion(y) => type_expr_namespaced(declared, prefix, *x, *y),
            _ => false,
        },
        TypeKind::Fn { params, ret } => match b {
            TypeKind::Fn { params: params2, ret: ret2 } => {
                &&& type_exprs_namespaced(declared, prefix, params, params2)
                &&& type_expr_namespaced(declared, prefix, *ret, *ret2)
            },
            _ => false,
        },
        TypeKind::SelfType => b is SelfType,
    }
}

fn namespace_type_kind(declared: &Vec<String>, prefix: &str, a: &TypeKind) -> (r: TypeKind)
    ensures
        type_kind_namespaced(views(declared@), prefix@, *a, r),
    decreases *a,
{
    match a {
        TypeKind::Named { path, args } => TypeKind::Named {
            path: namespace_path(declared, prefix, path),
            args: namespace_type_exprs(declared, prefix, args),
        },
        TypeKind::Nullable(x) => TypeKind::Nullable(Box::new(namespace_type_expr(declared, prefix, x))),
        TypeKind::ErrorUnion(x) => TypeKind::ErrorUnion(Box::new(namespace_type_expr(declared, prefix, x))),
        TypeKind::Fn { params, ret } => TypeKind::Fn {
            params: namespace_type_exprs(declared, prefix, params),
            ret: Box::new(namespace_type_expr(declared, prefix, ret)),
        },
        TypeKind::SelfType => TypeKind::SelfType,
    }
}

pub open spec fn property_decl_namespaced(
    declared: Seq<Seq<char>>,
    prefix: Seq<char>,
    a: PropertyDecl,
    b: PropertyDecl,
) -> bool
    decreases a,
{
    &&& same_ident(a.name, b.name)
    &&& type_expr_namespaced(declared, prefix, a.ty, b.ty)
    &&& same_opt_ident(a.notify, b.notify)
    &&& same_opt_expr(a.default, b.default)
    &&& b.is_pub == a.is_pub
    &&& b.bindable == a.bindable
    &&& same_opt_expr(a.binding, b.binding)
    &&& same_opt_expr(a.fresh, b.fresh)
    &&& b.model == a.model
    &&& b.constant == a.constant
    &&& b.span == a.span
    &&& b.block_id == a.block_id
}

fn namespace_property_decl(
    declared: &Vec<String>,
    prefix: &str,
    a: &PropertyDecl,
) -> (r: PropertyDecl)
    ensures
        property_decl_namespaced(views(declared@), prefix@, *a, r),
    decreases *a,
{
    PropertyDecl {
        name: copy_ident(&a.name),
        ty: namespace_type_expr(declared, prefix, &a.ty),
        notify: copy_opt_ident(&a.notify),
        default: copy_opt_expr(&a.default),
        is_pub: a.is_pub,
        bindable: a.bindable,
        binding: copy_opt_expr(&a.binding),
        fresh: copy_opt_expr(&a.fresh),
        model: a.model,
        constant: a.constant,
        span: a.span,
        block_id: a.block_id,
    }
}

pub open spec fn signal_decl_namespaced(
    declared: Seq<Seq<char>>,
    prefix: Seq<char>,
    a: SignalDecl,
    b: SignalDecl,
) -> bool
    decreases a,
{
    &&& same_ident(a.name, b.name)
    &&& params_namespaced(declared, prefix, a.params, b.params)
    &&& b.is_pub == a.is_pub
    &&& b.span == a.span
}

fn namespace_signal_decl(declared: &Vec<String>, prefix: &str, a: &SignalDecl) -> (r: SignalDecl)
    ensures
        signal_decl_namespaced(views(declared@), prefix@, *a, r),
    decreases *a,
{
    SignalDecl {
        name: copy_ident(&a.name),
        params: namespace_params(declared, prefix, &a.params),
        is_pub: a.is_pub,
        span: a.span,
    }
}

pub open spec fn fn_decl_namespaced(
    declared: Seq<Seq<char>>,
    prefix: Seq<char>,
    a: FnDecl,
    b: FnDecl,
) -> bool
    decreases a,
{
    &&& b.is_async == a.is_async
    &&& same_ident(a.name, b.name)
    &&& same_generic_params(a.generics, b.generics)
    &&& params_namespaced(declared, prefix, a.params, b.params)
    &&& opt_type_expr_namespaced(declared, prefix, a.return_ty, b.return_ty)
    &&& same_opt_block(a.body, b.body)
    &&& b.is_pub == a.is_pub
    &&& b.is_test == a.is_test
    &&& opt_view(b.display_name) == opt_view(a.display_name)
    &&& same_attributes(a.attributes, b.attributes)
    &&& b.span == a.span
}

fn namespace_fn_decl(declared: &Vec<String>, prefix: &str, a: &FnDecl) -> (r: FnDecl)
    ensures
        fn_decl_namespaced(views(declared@), prefix@, *a, r),
    decreases *a,
{
    FnDecl {
        is_async: a.is_async,
        name: copy_ident(&a.name),
        generics: copy_generic_params(&a.generics),
        params: namespace_params(declared, prefix, &a.params),
        return_ty: namespace_opt_type_expr(declared, prefix, &a.return_ty),
        body: copy_opt_block(&a.body),
        is_pub: a.is_pub,
        is_test: a.is_test,
        display_name: copy_opt_string(&a.display_name),
        attributes: copy_attributes(&a.attributes),
        span: a.span,
    }
}

pub open spec fn field_namespaced(
    declared: Seq<Seq<char>>,
    prefix: Seq<char>,
    a: Field,
    b: Field,
) -> bool
    decreases a,
{
    &&& same_ident(a.name, b.name)
    &&& type_expr_namespaced(declared, prefix, a.ty, b.ty)
    &&& same_opt_expr(a.default, b.default)
    &&& b.is_pub == a.is_pub
    &&& b.is_mut == a.is_mut
    &&& b.weak == a.weak
    &&& b.unowned == a.unowned
    &&& b.span == a.span
    &&& b.block_id == a.block_id
}

fn namespace_field(declared: &Vec<String>, prefix: &str, a: &Field) -> (r: Field)
    ensures
        field_namespaced(views(declared@), prefix@, *a, r),
    decreases *a,
{
    Field {
        name: copy_ident(&a.name),
        ty: namespace_type_expr(declared, prefix, &a.ty),
        default: copy_opt_expr(&a.default),
        is_pub: a.is_pub,
        is_mut: a.is_mut,
        weak: a.weak,
        unowned: a.unowned,
        span: a.span,
        block_id: a.block_id,
    }
}

pub open spec fn init_decl_namespaced(
    declared: Seq<Seq<char>>,
    prefix: Seq<char>,
    a: InitDecl,
    b: InitDecl,
) -> bool
    decreases a,
{
    &&& params_namespaced(declared, prefix, a.params, b.params)
    &&& same_block(a.body, b.body)
    &&& b.span == a.span
}

fn namespace_init_decl(declared: &Vec<String>, prefix: &str, a: &InitDecl) -> (r: InitDecl)
    ensures
        init_decl_namespaced(views(declared@), prefix@, *a, r),
    decreases *a,
{
    InitDecl {
        params: namespace_params(declared, prefix, &a.params),
        body: copy_block(&a.body),
        span: a.span,
    }
}

pub open spec fn params_namespaced(
    declared: Seq<Seq<char>>,
    prefix: Seq<char>,
    a: Vec<Param>,
    b: Vec<Param>,
) -> bool
    decreases a,
{
    &&& a@.len() == b@.len()
    &&& forall|i: int| 0 <= i < a@.len() ==> param_namespaced(declared, prefix, #[trigger] a[i], b[i])
}

fn namespace_params(declared: &Vec<String>, prefix: &str, a: &Vec<Param>) -> (r: Vec<Param>)
    ensures
        params_namespaced(views(declared@), prefix@, *a, r),
    decreases *a,
{
    let mut out: Vec<Param> = Vec::new();
    let mut i: usize = 0;
    while i < a.len()
        invariant
            i <= a@.len(),
            out@.len() == i,
            forall|j: int| 0 <= j < i ==> param_namespaced(views(declared@), prefix@, #[trigger] a[j], out[j]),
        decreases a@.len() - i,
    {
        assert(decreases_to!(*a => a[i as int]));
        let x = namespace_param(declared, prefix, &a[i]);
        out.push(x);
        i += 1;
    }
    out
}

pub open spec fn param_namespaced(
    declared: Seq<Seq<char>>,
    prefix: Seq<char>,
    a: Param,
    b: Param,
) -> bool
    decreases a,
{
    &&& same_ident(a.name, b.name)
    &&& type_expr_namespaced(declared, prefix, a.ty, b.ty)
    &&& same_opt_expr(a.default, b.default)
    &&& b.is_escaping == a.is_escaping
    &&& b.is_consuming == a.is_consuming
    &&& b.span == a.span
}

fn namespace_param(declared: &Vec<String>, prefix: &str, a: &Param) -> (r: Param)
    ensures
        param_namespaced(views(declared@), prefix@, *a, r),
    decreases *a,
{
    Param {
        name: copy_ident(&a.name),
        ty: namespace_type_expr(declared, prefix, &a.ty),
        default: copy_opt_expr(&a.default),
        is_escaping: a.is_escaping,
        is_consuming: a.is_consuming,
        span: a.span,
    }
}

/// The class with its name, and the classes that it refers to, under the
/// namespace.
pub open spec fn class_decl_namespaced(
    declared: Seq<Seq<char>>,
    prefix: Seq<char>,
    a: ClassDecl,
    b: ClassDecl,
) -> bool {
    &&& b.name.name@ == prefixed(prefix, a.name.name@)
    &&& b.name.span == a.name.span
    &&& same_generic_params(a.generics, b.generics)
    &&& opt_type_expr_namespaced(declared, prefix, a.super_class, b.super_class)
    &&& class_members_namespaced(declared, prefix, a.members, b.members)
    &&& b.is_pub == a.is_pub
    &&& b.is_extern_value == a.is_extern_value
    &&& b.is_arc == a.is_arc
    &&& b.is_copyable == a.is_copyable
    &&& b.span == a.span
}

fn namespace_class_decl(declared: &Vec<String>, prefix: &str, a: &ClassDecl) -> (r: ClassDecl)
    ensures
        class_decl_namespaced(views(declared@), prefix@, *a, r),
{
    ClassDecl {
        name: Ident {
            name: prefix.to_owned().concat("_").concat(a.name.name.as_str()),
            span: a.name.span,
        },
        generics: copy_generic_params(&a.generics),
        super_class: namespace_opt_type_expr(declared, prefix, &a.super_class),
        members: namespace_class_members(declared, prefix, &a.members),
        is_pub: a.is_pub,
        is_extern_value: a.is_extern_value,
        is_arc: a.is_arc,
        is_copyable: a.is_copyable,
        span: a.span,
    }
}

/// An item of the namespaced module: only classes change.
pub open spec fn item_namespaced(
    declared: Seq<Seq<char>>,
    prefix: Seq<char>,
    a: Item,
    b: Item,
) -> bool {
    match a {
        Item::Class(c) => match b {
            Item::Class(d) => class_decl_namespaced(declared, prefix, c, d),
            _ => false,
        },
        _ => same_item(a, b),
    }
}

/// The module with every class that it declares, and every reference to one of
/// them, under the namespace. References to other classes stay.
pub open spec fn module_namespaced(a: Module, prefix: Seq<char>, b: Module) -> bool {
    let declared = class_names(a.items@, a.items@.len() as int);
    &&& b.span == a.span
    &&& b.items@.len() == a.items@.len()
    &&& forall|i: int|
        0 <= i < a.items@.len() ==> item_namespaced(
            declared,
            prefix,
            #[trigger] a.items@[i],
            b.items@[i],
        )
}

fn collect_class_names(items: &Vec<Item>) -> (r: Vec<String>)
    ensures
        views(r@) == class_names(items@, items@.len() as int),
{
    let mut out: Vec<String> = Vec::new();
    let mut i: usize = 0;
    assert(views(out@) =~= class_names(items@, 0));
    while i < items.len()
        invariant
            i <= items@.len(),
            views(out@) == class_names(items@, i as int),
        decreases items@.len() - i,
    {
        match &items[i] {
            Item::Class(c) => {
                proof {
                    lemma_views_push(out@, c.name.name);
                }
                out.push(c.name.name.clone());
            },
            _ => {},
        }
        i += 1;
    }
    out
}

/// Puts the classes that a module declares under a namespace.
pub fn apply_namespace_mangle(module: &mut Module, prefix: &str)
    ensures
        module_namespaced(*old(module), prefix@, *final(module)),
{
    let declared = collect_class_names(&module.items);
    let mut items: Vec<Item> = Vec::new();
    let mut i: usize = 0;
    while i < module.items.len()
        invariant
            i <= module.items@.len(),
            *module == *old(module),
            items@.len() == i,
            forall|k: int|
                0 <= k < i ==> item_namespaced(
                    views(declared@),
                    prefix@,
                    #[trigger] module.items@[k],
                    items@[k],
                ),
        decreases module.items@.len() - i,
    {
        let item = match &module.items[i] {
            Item::Class(c) => Item::Class(namespace_class_decl(&declared, prefix, c)),
            other => copy_item(other),
        };
        items.push(item);
        i += 1;
    }
    let span = module.span;
    *module = Module { items, span };
}

/// The module of a QML module: none where it is unknown or has no bundled
/// binding. With an alias, its classes come under that namespace. `parsed` is
/// what the parser made of the bundled binding.
pub fn load_qml_module(
    uri: &str,
    alias: Option<&str>,
    parsed: Result<Module, String>,
) -> (r: Result<Option<Module>, BindingError>)
    ensures
        match qml_binding(uri@) {
            Some((name, Some(_))) => match parsed {
                Ok(m) => match r {
                    Ok(Some(out)) => match alias {
                        Some(a) => module_namespaced(m, a@, out),
                        None => out == m,
                    },
                    _ => false,
                },
                Err(e) => match r {
                    Err(BindingError::Parse { name: n, message }) => n@ == name && message@ == e@,
                    _ => false,
                },
            },
            _ => r == Ok::<Option<Module>, BindingError>(None),
        },
{
    match lookup_qml_module(uri) {
        Some(b) => {
            if b.qpi_source.is_none() {
                return Ok(None);
            }
            match parse_qpi(b.binding_name, parsed) {
                Ok(m) => {
                    let mut m = m;
                    match alias {
                        Some(a) => {
                            apply_namespace_mangle(&mut m, a);
                        },
                        None => {},
                    }
                    Ok(Some(m))
                },
                Err(e) => Err(e),
            }
        },
        None => Ok(None),
    }
}

/// A QML module that the sources use.
#[derive(Debug, Clone)]
pub struct QmlModuleSpec {
    pub module_uri: String,
    pub version: Option<String>,
    pub alias: Option<String>,
    /// Whether the type checker knows the module's classes.
    pub binding_loaded: bool,
}

/// The name of an optional identifier.
pub open spec fn opt_name(i: Option<Ident>) -> Option<Seq<char>> {
    match i {
        Some(x) => Some(x.name@),
        None => None,
    }
}

/// `uses` with those of the first `n` items, each module and alias once.
pub open spec fn item_qml_uses(
    uses: Seq<(Seq<char>, Option<Seq<char>>)>,
    items: Seq<Item>,
    n: int,
) -> Seq<(Seq<char>, Option<Seq<char>>)>
    decreases n,
{
    if n <= 0 {
        uses
    } else {
        let before = item_qml_uses(uses, items, n - 1);
        match items[n - 1] {
            Item::UseQml(u) => {
                let key = (u.module_uri@, opt_name(u.alias));
                if before.contains(key) {
                    before
                } else {
                    before.push(key)
                }
            },
            _ => before,
        }
    }
}

/// The QML modules that the first `n` modules use, each with its alias once.
pub open spec fn qml_uses(ms: Seq<Module>, n: int) -> Seq<(Seq<char>, Option<Seq<char>>)>
    decreases n,
{
    if n <= 0 {
        Seq::empty()
    } else {
        item_qml_uses(qml_uses(ms, n - 1), ms[n - 1].items@, ms[n - 1].items@.len() as int)
    }
}

/// The module and alias of each.
pub open spec fn spec_keys(v: Seq<QmlModuleSpec>) -> Seq<(Seq<char>, Option<Seq<char>>)> {
    Seq::new(v.len(), |i: int| (v[i].module_uri@, opt_view(v[i].alias)))
}

/// A binding of the QML module is bundled.
pub open spec fn is_bundled(uri: Seq<char>) -> bool {
    match qml_binding(uri) {
        Some((_, Some(_))) => true,
        _ => false,
    }
}

/// The module has no version, and is known to the type checker where a binding is
/// bundled.
pub open spec fn spec_facts(s: QmlModuleSpec) -> bool {
    &&& s.version is None
    &&& s.binding_loaded == is_bundled(s.module_uri@)
}

fn same_opt(a: &Option<String>, b: &Option<String>) -> (r: bool)
    ensures
        r == (opt_view(*a) == opt_view(*b)),
{
    match a {
        Some(x) => match b {
            Some(y) => same(x.as_str(), y.as_str()),
            None => false,
        },
        None => b.is_none(),
    }
}

fn has_spec(v: &Vec<QmlModuleSpec>, uri: &str, alias: &Option<String>) -> (r: bool)
    ensures
        r == spec_keys(v@).contains((uri@, opt_view(*alias))),
{
    let mut i: usize = 0;
    while i < v.len()
        invariant
            i <= v@.len(),
            forall|k: int| 0 <= k < i ==> spec_keys(v@)[k] != (uri@, opt_view(*alias)),
        decreases v@.len() - i,
    {
        if same(v[i].module_uri.as_str(), uri) && same_opt(&v[i].alias, alias) {
            assert(spec_keys(v@)[i as int] == (uri@, opt_view(*alias)));
            return true;
        }
        i += 1;
    }
    false
}

/// The QML modules that the sources use, in the order of their first uses.
pub fn collect_qml_module_specs(modules: &Vec<Module>) -> (r: Vec<QmlModuleSpec>)
    ensures
        spec_keys(r@) == qml_uses(modules@, modules@.len() as int),
        forall|i: int| 0 <= i < r@.len() ==> spec_facts(#[trigger] r@[i]),
{
    let mut out: Vec<QmlModuleSpec> = Vec::new();
    let mut i: usize = 0;
    assert(spec_keys(out@) =~= qml_uses(modules@, 0));
    while i < modules.len()
        invariant
            i <= modules@.len(),
            spec_keys(out@) == qml_uses(modules@, i as int),
            forall|k: int| 0 <= k < out@.len() ==> spec_facts(#[trigger] out@[k]),
        decreases modules@.len() - i,
    {
        let items = &modules[i].items;
        let ghost start = spec_keys(out@);
        let mut k: usize = 0;
        while k < items.len()
            invariant
                k <= items@.len(),
                spec_keys(out@) == item_qml_uses(start, items@, k as int),
                forall|j: int| 0 <= j < out@.len() ==> spec_facts(#[trigger] out@[j]),
            decreases items@.len() - k,
        {
            match &items[k] {
                Item::UseQml(u) => {
                    let alias = match &u.alias {
                        Some(a) => Some(a.name.clone()),
                        None => None,
                    };
                    if !has_spec(&out, u.module_uri.as_str(), &alias) {
                        let binding_loaded = match lookup_qml_module(u.module_uri.as_str()) {
                            Some(b) => b.qpi_source.is_some(),
                            None => false,
                        };
                        let ghost before = out@;
                        let ghost key = (u.module_uri@, opt_view(alias));
                        out.push(
                            QmlModuleSpec {
                                module_uri: u.module_uri.clone(),
                                version: None,
                                alias,
                                binding_loaded,
                            },
                        );
                        assert(spec_keys(out@) =~= spec_keys(before).push(key));
                    }
                },
                _ => {},
            }
            k += 1;
        }
        i += 1;
    }
    out
}

// ---- the standard bindings -----------------------------------------------------------

/// The item with `QObject` made the root of its hierarchy.
pub open spec fn rooted(item: Item) -> Item {
    match item {
        Item::Class(c) => if c.name.name@ == "QObject"@ {
            Item::Class(ClassDecl { super_class: None, ..c })
        } else {
            item
        },
        _ => item,
    }
}

/// The module with `QObject` made the root of its hierarchy.
pub open spec fn is_rooted(a: Module, b: Module) -> bool {
    &&& b.span == a.span
    &&& b.items@.len() == a.items@.len()
    &&& forall|i: int| 0 <= i < a.items@.len() ==> b.items@[i] == rooted(#[trigger] a.items@[i])
}

fn root_qobject(m: Module) -> (r: Module)
    ensures
        is_rooted(m, r),
{
    let ghost items = m.items@;
    let span = m.span;
    let mut out: Vec<Item> = Vec::new();
    for item in it: m.items
        invariant
            it.seq() == items,
            out@.len() == it.index(),
            forall|k: int| 0 <= k < it.index() ==> out@[k] == rooted(#[trigger] items[k]),
    {
        let ghost this = item;
        assert(this == items[it.index() as int]);
        match item {
            Item::Class(c) => {
                if same(c.name.name.as_str(), "QObject") {
                    let mut c = c;
                    c.super_class = None;
                    out.push(Item::Class(c));
                } else {
                    out.push(Item::Class(c));
                }
            },
            other => {
                out.push(other);
            },
        }
    }
    Module { items: out, span }
}

/// The standard bindings, in the order in which they are loaded: each stands
/// behind what it refers to.
pub open spec fn stdlib_names() -> Seq<Seq<char>> {
    stdlib_group_0() + stdlib_group_1() + stdlib_group_2() + stdlib_group_3() + stdlib_group_4()
}

pub open spec fn stdlib_group_0() -> Seq<Seq<char>> {
    seq![
        "qcore.qpi"@,
        "qenums.qpi"@,
        "qobject.qpi"@,
        "qvaluetypes.qpi"@,
        "qbytearray.qpi"@,
        "qregularexpression.qpi"@,
        "qfileinfo.qpi"@,
        "qdir.qpi"@,
        "qfile.qpi"@,
        "qthread.qpi"@,
        "qprocess.qpi"@,
        "qenvironment.qpi"@,
        "qclipboard.qpi"@,
        "qrangemodel.qpi"@,
        "modellist.qpi"@,
        "code_highlighter.qpi"@,
    ]
}

fn name_group_0() -> (r: Vec<String>)
    ensures
        views(r@) == stdlib_group_0(),
{
    let mut v: Vec<String> = Vec::new();
    v.push("qcore.qpi".to_owned());
    v.push("qenums.qpi".to_owned());
    v.push("qobject.qpi".to_owned());
    v.push("qvaluetypes.qpi".to_owned());
    v.push("qbytearray.qpi".to_owned());
    v.push("qregularexpression.qpi".to_owned());
    v.push("qfileinfo.qpi".to_owned());
    v.push("qdir.qpi".to_owned());
    v.push("qfile.qpi".to_owned());
    v.push("qthread.qpi".to_owned());
    v.push("qprocess.qpi".to_owned());
    v.push("qenvironment.qpi".to_owned());
    v.push("qclipboard.qpi".to_owned());
    v.push("qrangemodel.qpi".to_owned());
    v.push("modellist.qpi".to_owned());
    v.push("code_highlighter.qpi".to_owned());
    assert(views(v@) =~= stdlib_group_0());
    v
}

pub open spec fn stdlib_group_1() -> Seq<Seq<char>> {
    seq![
        "qwidget.qpi"@,
        "qmainwindow.qpi"@,
        "qframe.qpi"@,
        "qabstractscrollarea.qpi"@,
        "qabstractitemmodel.qpi"@,
        "qabstractitemview.qpi"@,
        "qlistview.qpi"@,
        "qtreeview.qpi"@,
        "qtableview.qpi"@,
        "qabstractbutton.qpi"@,
        "qabstractslider.qpi"@,
        "qslider.qpi"@,
        "qpushbutton.qpi"@,
        "qcheckbox.qpi"@,
        "qradiobutton.qpi"@,
        "qlabel.qpi"@,
    ]
}

fn name_group_1() -> (r: Vec<String>)
    ensures
        views(r@) == stdlib_group_1(),
{
    let mut v: Vec<String> = Vec::new();
    v.push("qwidget.qpi".to_owned());
    v.push("qmainwindow.qpi".to_owned());
    v.push("qframe.qpi".to_owned());
    v.push("qabstractscrollarea.qpi".to_owned());
    v.push("qabstractitemmodel.qpi".to_owned());
    v.push("qabstractitemview.qpi".to_owned());
    v.push("qlistview.qpi".to_owned());
    v.push("qtreeview.qpi".to_owned());
    v.push("qtableview.qpi".to_owned());
    v.push("qabstractbutton.qpi".to_owned());
    v.push("qabstractslider.qpi".to_owned());
    v.push("qslider.qpi".to_owned());
    v.push("qpushbutton.qpi".to_owned());
    v.push("qcheckbox.qpi".to_owned());
    v.push("qradiobutton.qpi".to_owned());
    v.push("qlabel.qpi".to_owned());
    assert(views(v@) =~= stdlib_group_1());
    v
}

pub open spec fn stdlib_group_2() -> Seq<Seq<char>> {
    seq![
        "qlineedit.qpi"@,
        "qlayout.qpi"@,
        "qprogressbar.qpi"@,
        "qabstractspinbox.qpi"@,
        "qspinbox.qpi"@,
        "qcombobox.qpi"@,
        "qgroupbox.qpi"@,
        "qsplitter.qpi"@,
        "qmenu.qpi"@,
        "qtextedit.qpi"@,
        "qstatusbar.qpi"@,
        "qlistwidget.qpi"@,
        "qhttpserver.qpi"@,
        "qcommandlineparser.qpi"@,
        "qtimer.qpi"@,
        "qsettings.qpi"@,
    ]
}

fn name_group_2() -> (r: Vec<String>)
    ensures
        views(r@) == stdlib_group_2(),
{
    let mut v: Vec<String> = Vec::new();
    v.push("qlineedit.qpi".to_owned());
    v.push("qlayout.qpi".to_owned());
    v.push("qprogressbar.qpi".to_owned());
    v.push("qabstractspinbox.qpi".to_owned());
    v.push("qspinbox.qpi".to_owned());
    v.push("qcombobox.qpi".to_owned());
    v.push("qgroupbox.qpi".to_owned());
    v.push("qsplitter.qpi".to_owned());
    v.push("qmenu.qpi".to_owned());
    v.push("qtextedit.qpi".to_owned());
    v.push("qstatusbar.qpi".to_owned());
    v.push("qlistwidget.qpi".to_owned());
    v.push("qhttpserver.qpi".to_owned());
    v.push("qcommandlineparser.qpi".to_owned());
    v.push("qtimer.qpi".to_owned());
    v.push("qsettings.qpi".to_owned());
    assert(views(v@) =~= stdlib_group_2());
    v
}

pub open spec fn stdlib_group_3() -> Seq<Seq<char>> {
    seq![
        "qjson.qpi"@,
        "qfiledialog.qpi"@,
        "qnetwork.qpi"@,
        "qsql.qpi"@,
        "qtquickcontrols.qpi"@,
        "qpainter.qpi"@,
        "qguiapplication.qpi"@,
        "qtsvg.qpi"@,
        "qtprintsupport.qpi"@,
        "qtmultimedia.qpi"@,
        "qtcharts.qpi"@,
        "qtconcurrent.qpi"@,
        "kcoreaddons.qpi"@,
        "kconfig.qpi"@,
        "knotifications.qpi"@,
        "ki18n.qpi"@,
    ]
}

fn name_group_3() -> (r: Vec<String>)
    ensures
        views(r@) == stdlib_group_3(),
{
    let mut v: Vec<String> = Vec::new();
    v.push("qjson.qpi".to_owned());
    v.push("qfiledialog.qpi".to_owned());
    v.push("qnetwork.qpi".to_owned());
    v.push("qsql.qpi".to_owned());
    v.push("qtquickcontrols.qpi".to_owned());
    v.push("qpainter.qpi".to_owned());
    v.push("qguiapplication.qpi".to_owned());
    v.push("qtsvg.qpi".to_owned());
    v.push("qtprintsupport.qpi".to_owned());
    v.push("qtmultimedia.qpi".to_owned());
    v.push("qtcharts.qpi".to_owned());
    v.push("qtconcurrent.qpi".to_owned());
    v.push("kcoreaddons.qpi".to_owned());
    v.push("kconfig.qpi".to_owned());
    v.push("knotifications.qpi".to_owned());
    v.push("ki18n.qpi".to_owned());
    assert(views(v@) =~= stdlib_group_3());
    v
}

pub open spec fn stdlib_group_4() -> Seq<Seq<char>> {
    seq![
        "kio.qpi"@,
    ]
}

fn name_group_4() -> (r: Vec<String>)
    ensures
        views(r@) == stdlib_group_4(),
{
    let mut v: Vec<String> = Vec::new();
    v.push("kio.qpi".to_owned());
    assert(views(v@) =~= stdlib_group_4());
    v
}

/// The standard bindings, in the order in which they are loaded.
pub fn stdlib_binding_names() -> (r: Vec<String>)
    ensures
        views(r@) == stdlib_names(),
{
    let v = crate::text::chain(name_group_0(), name_group_1());
    let v = crate::text::chain(v, name_group_2());
    let v = crate::text::chain(v, name_group_3());
    crate::text::chain(v, name_group_4())
}

/// `i` is the first binding that cannot be parsed.
pub open spec fn first_failure(parsed: Seq<Result<Module, String>>, i: int) -> bool {
    &&& 0 <= i < parsed.len()
    &&& parsed[i] is Err
    &&& forall|k: int| 0 <= k < i ==> (#[trigger] parsed[k]) is Ok
}

/// The standard bindings. `parsed` is what the parser made of each of them; the
/// first that cannot be parsed is an error.
pub fn load_stdlib(parsed: Vec<Result<Module, String>>) -> (r: Result<Vec<Module>, BindingError>)
    requires
        parsed@.len() == stdlib_names().len(),
    ensures
        match r {
            Ok(ms) => {
                &&& ms@.len() == parsed@.len()
                &&& forall|i: int|
                    0 <= i < parsed@.len() ==> (#[trigger] parsed@[i]) is Ok && is_rooted(
                        parsed@[i]->Ok_0,
                        ms@[i],
                    )
            },
            Err(BindingError::Parse { name, message }) => exists|i: int| #[trigger]
                first_failure(parsed@, i) && name@ == stdlib_names()[i] && message@
                    == parsed@[i]->Err_0@,
        },
{
    let names = stdlib_binding_names();
    assert(views(names@).len() == names@.len());
    let ghost ps = parsed@;
    let mut out: Vec<Module> = Vec::new();
    for p in it: parsed
        invariant
            it.seq() == ps,
            ps.len() == names@.len(),
            views(names@) == stdlib_names(),
            out@.len() == it.index(),
            forall|k: int|
                0 <= k < it.index() ==> (#[trigger] ps[k]) is Ok && is_rooted(ps[k]->Ok_0, out@[k]),
    {
        let ghost i = it.index() as int;
        let ghost this = p;
        assert(this == ps[i]);
        let at: usize = out.len();
        match parse_qpi(names[at].as_str(), p) {
            Ok(m) => {
                out.push(root_qobject(m));
            },
            Err(e) => {
                assert(first_failure(ps, i));
                assert(views(names@)[i] == names@[i]@);
                return Err(e);
            },
        }
    }
    Ok(out)
}

/// The standard bindings, and that of the CuteUI runtime behind them where it
/// is asked for. Its class names collide with those of QtQuick, so only a
/// program on that runtime asks for it.
pub fn load_stdlib_with_cute_ui(
    parsed: Vec<Result<Module, String>>,
    cute_ui: Option<Result<Module, String>>,
) -> (r: Result<Vec<Module>, BindingError>)
    requires
        parsed@.len() == stdlib_names().len(),
    ensures
        match r {
            Ok(ms) => {
                &&& forall|i: int| 0 <= i < parsed@.len() ==> (#[trigger] parsed@[i]) is Ok
                    && is_rooted(parsed@[i]->Ok_0, ms@[i])
                &&& match cute_ui {
                    Some(p) => p is Ok && ms@.len() == parsed@.len() + 1 && ms@[parsed@.len() as int]
                        == p->Ok_0,
                    None => ms@.len() == parsed@.len(),
                }
            },
            Err(BindingError::Parse { name, message }) => (exists|i: int| #[trigger]
                first_failure(parsed@, i) && name@ == stdlib_names()[i] && message@
                    == parsed@[i]->Err_0@) || ((forall|i: int|
                0 <= i < parsed@.len() ==> (#[trigger] parsed@[i]) is Ok) && cute_ui is Some
                && cute_ui->0 is Err && name@ == "cute_ui.qpi"@ && message@
                == cute_ui->0->Err_0@),
        },
{
    match load_stdlib(parsed) {
        Ok(ms) => {
            let mut ms = ms;
            match cute_ui {
                Some(p) => match parse_qpi("cute_ui.qpi", p) {
                    Ok(m) => {
                        ms.push(m);
                        Ok(ms)
                    },
                    Err(e) => Err(e),
                },
                None => Ok(ms),
            }
        },
        Err(e) => Err(e),
    }
}

// ---- laws ---------------------------------------------------------------------------

/// After loading, `QObject` has no parent.
pub proof fn law_qobject_is_the_root(a: Module, b: Module, i: int)
    requires
        is_rooted(a, b),
        0 <= i < b.items@.len(),
    ensures
        match b.items@[i] {
            Item::Class(c) => c.name.name@ == "QObject"@ ==> c.super_class is None,
            _ => true,
        },
{
    assert(b.items@[i] == rooted(a.items@[i]));
}

/// Every class of a namespaced module has its old name behind the namespace.
pub proof fn law_namespaced_classes(a: Module, prefix: Seq<char>, b: Module, i: int)
    requires
        module_namespaced(a, prefix, b),
        0 <= i < a.items@.len(),
        a.items@[i] is Class,
    ensures
        b.items@[i] is Class,
        b.items@[i]->Class_0.name.name@ == prefixed(prefix, a.items@[i]->Class_0.name.name@),
{
    assert(item_namespaced(
        class_names(a.items@, a.items@.len() as int),
        prefix,
        a.items@[i],
        b.items@[i],
    ));
}

/// A reference to a class that the module does not declare stays as it is.
pub proof fn law_foreign_references_stay(
    declared: Seq<Seq<char>>,
    prefix: Seq<char>,
    a: Vec<Ident>,
    b: Vec<Ident>,
)
    requires
        path_namespaced(declared, prefix, a, b),
        a@.len() > 0,
        !declared.contains(a@.last().name@),
    ensures
        same_idents(a, b),
{
}

} // verus!
