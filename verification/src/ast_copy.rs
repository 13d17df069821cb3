//! Copies of syntax trees: a copy has the same shape and the same content as
//! the tree that it was made from, in lists of its own.

use crate::ast::{
    Attribute, Block, CaseArm, ClassDecl, ClassMember, DeinitDecl, Element, ElementMember, EnumDecl,
    EnumVariant, Expr, ExprKind, Field, FlagsDecl, FnDecl, GenericParam, Ident, ImplDecl, InitDecl,
    Item, LetBinding, LetDecl, MapEntry, Module, Param, Pattern, PropertyDecl, SignalDecl,
    StateField, StateFieldKind, Stmt, StoreDecl, StrPart, StructDecl, StyleBody, StyleDecl,
    StyleEntry, SuiteDecl, TraitDecl, TypeExpr, TypeKind, UseDecl, UseKind, UseName, UseQml,
    ViewDecl, WidgetDecl,
};
use crate::text::opt_view;
use vstd::prelude::*;

verus! {

/// A copy of an optional string.
pub fn copy_opt_string(a: &Option<String>) -> (r: Option<String>)
    ensures
        opt_view(r) == opt_view(*a),
{
    match a {
        Some(s) => Some(s.clone()),
        None => None,
    }
}

pub open spec fn same_module(a: Module, b: Module) -> bool
    decreases a,
{
    &&& same_items(a.items, b.items)
    &&& b.span == a.span
}

pub open spec fn same_items(a: Vec<Item>, b: Vec<Item>) -> bool
    decreases a,
{
    &&& a@.len() == b@.len()
    &&& forall|i: int| 0 <= i < a@.len() ==> same_item(#[trigger] a[i], b[i])
}

pub fn copy_items(a: &Vec<Item>) -> (r: Vec<Item>)
    ensures
        same_items(*a, r),
    decreases *a,
{
    let mut out: Vec<Item> = Vec::new();
    let mut i: usize = 0;
    while i < a.len()
        invariant
            i <= a@.len(),
            out@.len() == i,
            forall|j: int| 0 <= j < i ==> same_item(#[trigger] a[j], out[j]),
        decreases a@.len() - i,
    {
        assert(decreases_to!(*a => a[i as int]));
        let x = copy_item(&a[i]);
        out.push(x);
        i += 1;
    }
    out
}

pub open spec fn same_item(a: Item, b: Item) -> bool
    decreases a,
{
    match a {
        Item::Class(x) => match b {
            Item::Class(y) => same_class_decl(x, y),
            _ => false,
        },
        Item::Struct(x) => match b {
            Item::Struct(y) => same_struct_decl(x, y),
            _ => false,
        },
        Item::Fn(x) => match b {
            Item::Fn(y) => same_fn_decl(x, y),
            _ => false,
        },
        Item::View(x) => match b {
            Item::View(y) => same_view_decl(x, y),
            _ => false,
        },
        Item::Widget(x) => match b {
            Item::Widget(y) => same_widget_decl(x, y),
            _ => false,
        },
        Item::Style(x) => match b {
            Item::Style(y) => same_style_decl(x, y),
            _ => false,
        },
        Item::Use(x) => match b {
            Item::Use(y) => same_use_decl(x, y),
            _ => false,
        },
        Item::UseQml(x) => match b {
            Item::UseQml(y) => same_use_qml(x, y),
            _ => false,
        },
        Item::Trait(x) => match b {
            Item::Trait(y) => same_trait_decl(x, y),
            _ => false,
        },
        Item::Impl(x) => match b {
            Item::Impl(y) => same_impl_decl(x, y),
            _ => false,
        },
        Item::Let(x) => match b {
            Item::Let(y) => same_let_decl(x, y),
            _ => false,
        },
        Item::Enum(x) => match b {
            Item::Enum(y) => same_enum_decl(x, y),
            _ => false,
        },
        Item::Flags(x) => match b {
            Item::Flags(y) => same_flags_decl(x, y),
            _ => false,
        },
        Item::Store(x) => match b {
            Item::Store(y) => same_store_decl(x, y),
            _ => false,
        },
        Item::Suite(x) => match b {
            Item::Suite(y) => same_suite_decl(x, y),
            _ => false,
        },
    }
}

pub fn copy_item(a: &Item) -> (r: Item)
    ensures
        same_item(*a, r),
    decreases *a,
{
    match a {
        Item::Class(x) => Item::Class(copy_class_decl(x)),
        Item::Struct(x) => Item::Struct(copy_struct_decl(x)),
        Item::Fn(x) => Item::Fn(copy_fn_decl(x)),
        Item::View(x) => Item::View(copy_view_decl(x)),
        Item::Widget(x) => Item::Widget(copy_widget_decl(x)),
        Item::Style(x) => Item::Style(copy_style_decl(x)),
        Item::Use(x) => Item::Use(copy_use_decl(x)),
        Item::UseQml(x) => Item::UseQml(copy_use_qml(x)),
        Item::Trait(x) => Item::Trait(copy_trait_decl(x)),
        Item::Impl(x) => Item::Impl(copy_impl_decl(x)),
        Item::Let(x) => Item::Let(copy_let_decl(x)),
        Item::Enum(x) => Item::Enum(copy_enum_decl(x)),
        Item::Flags(x) => Item::Flags(copy_flags_decl(x)),
        Item::Store(x) => Item::Store(copy_store_decl(x)),
        Item::Suite(x) => Item::Suite(copy_suite_decl(x)),
    }
}

pub open spec fn same_class_decl(a: ClassDecl, b: ClassDecl) -> bool
    decreases a,
{
    &&& same_ident(a.name, b.name)
    &&& same_generic_params(a.generics, b.generics)
    &&& same_opt_type_expr(a.super_class, b.super_class)
    &&& same_class_members(a.members, b.members)
    &&& b.is_pub == a.is_pub
    &&& b.is_extern_value == a.is_extern_value
    &&& b.is_arc == a.is_arc
    &&& b.is_copyable == a.is_copyable
    &&& b.span == a.span
}

pub fn copy_class_decl(a: &ClassDecl) -> (r: ClassDecl)
    ensures
        same_class_decl(*a, r),
    decreases *a,
{
    ClassDecl {
        name: copy_ident(&a.name),
        generics: copy_generic_params(&a.generics),
        super_class: copy_opt_type_expr(&a.super_class),
        members: copy_class_members(&a.members),
        is_pub: a.is_pub,
        is_extern_value: a.is_extern_value,
        is_arc: a.is_arc,
        is_copyable: a.is_copyable,
        span: a.span,
    }
}

pub open spec fn same_struct_decl(a: StructDecl, b: StructDecl) -> bool
    decreases a,
{
    &&& same_ident(a.name, b.name)
    &&& same_fields(a.fields, b.fields)
    &&& same_fn_decls(a.methods, b.methods)
    &&& b.is_pub == a.is_pub
    &&& b.is_copyable == a.is_copyable
    &&& b.span == a.span
}

pub fn copy_struct_decl(a: &StructDecl) -> (r: StructDecl)
    ensures
        same_struct_decl(*a, r),
    decreases *a,
{
    StructDecl {
        name: copy_ident(&a.name),
        fields: copy_fields(&a.fields),
        methods: copy_fn_decls(&a.methods),
        is_pub: a.is_pub,
        is_copyable: a.is_copyable,
        span: a.span,
    }
}

pub open spec fn same_fn_decl(a: FnDecl, b: FnDecl) -> bool
    decreases a,
{
    &&& b.is_async == a.is_async
    &&& same_ident(a.name, b.name)
    &&& same_generic_params(a.generics, b.generics)
    &&& same_params(a.params, b.params)
    &&& same_opt_type_expr(a.return_ty, b.return_ty)
    &&& same_opt_block(a.body, b.body)
    &&& b.is_pub == a.is_pub
    &&& b.is_test == a.is_test
    &&& opt_view(b.display_name) == opt_view(a.display_name)
    &&& same_attributes(a.attributes, b.attributes)
    &&& b.span == a.span
}

pub fn copy_fn_decl(a: &FnDecl) -> (r: FnDecl)
    ensures
        same_fn_decl(*a, r),
    decreases *a,
{
    FnDecl {
        is_async: a.is_async,
        name: copy_ident(&a.name),
        generics: copy_generic_params(&a.generics),
        params: copy_params(&a.params),
        return_ty: copy_opt_type_expr(&a.return_ty),
        body: copy_opt_block(&a.body),
        is_pub: a.is_pub,
        is_test: a.is_test,
        display_name: copy_opt_string(&a.display_name),
        attributes: copy_attributes(&a.attributes),
        span: a.span,
    }
}

pub open spec fn same_view_decl(a: ViewDecl, b: ViewDecl) -> bool
    decreases a,
{
    &&& same_ident(a.name, b.name)
    &&& same_params(a.params, b.params)
    &&& same_state_fields(a.state_fields, b.state_fields)
    &&& same_element(a.root, b.root)
    &&& b.is_pub == a.is_pub
    &&& b.span == a.span
}

pub fn copy_view_decl(a: &ViewDecl) -> (r: ViewDecl)
    ensures
        same_view_decl(*a, r),
    decreases *a,
{
    ViewDecl {
        name: copy_ident(&a.name),
        params: copy_params(&a.params),
        state_fields: copy_state_fields(&a.state_fields),
        root: copy_element(&a.root),
        is_pub: a.is_pub,
        span: a.span,
    }
}

pub open spec fn same_widget_decl(a: WidgetDecl, b: WidgetDecl) -> bool
    decreases a,
{
    &&& same_ident(a.name, b.name)
    &&& same_params(a.params, b.params)
    &&& same_state_fields(a.state_fields, b.state_fields)
    &&& same_element(a.root, b.root)
    &&& b.is_pub == a.is_pub
    &&& b.span == a.span
}

pub fn copy_widget_decl(a: &WidgetDecl) -> (r: WidgetDecl)
    ensures
        same_widget_decl(*a, r),
    decreases *a,
{
    WidgetDecl {
        name: copy_ident(&a.name),
        params: copy_params(&a.params),
        state_fields: copy_state_fields(&a.state_fields),
        root: copy_element(&a.root),
        is_pub: a.is_pub,
        span: a.span,
    }
}

pub open spec fn same_style_decl(a: StyleDecl, b: StyleDecl) -> bool
    decreases a,
{
    &&& same_ident(a.name, b.name)
    &&& same_style_body(a.body, b.body)
    &&& b.is_pub == a.is_pub
    &&& b.span == a.span
}

pub fn copy_style_decl(a: &StyleDecl) -> (r: StyleDecl)
    ensures
        same_style_decl(*a, r),
    decreases *a,
{
    StyleDecl {
        name: copy_ident(&a.name),
        body: copy_style_body(&a.body),
        is_pub: a.is_pub,
        span: a.span,
    }
}

pub open spec fn same_use_decl(a: UseDecl, b: UseDecl) -> bool
    decreases a,
{
    &&& same_idents(a.path, b.path)
    &&& same_use_kind(a.kind, b.kind)
    &&& b.is_pub == a.is_pub
    &&& b.span == a.span
}

pub fn copy_use_decl(a: &UseDecl) -> (r: UseDecl)
    ensures
        same_use_decl(*a, r),
    decreases *a,
{
    UseDecl {
        path: copy_idents(&a.path),
        kind: copy_use_kind(&a.kind),
        is_pub: a.is_pub,
        span: a.span,
    }
}

pub open spec fn same_use_qml(a: UseQml, b: UseQml) -> bool
    decreases a,
{
    &&& b.module_uri@ == a.module_uri@
    &&& same_opt_ident(a.alias, b.alias)
    &&& b.span == a.span
}

pub fn copy_use_qml(a: &UseQml) -> (r: UseQml)
    ensures
        same_use_qml(*a, r),
    decreases *a,
{
    UseQml {
        module_uri: a.module_uri.clone(),
        alias: copy_opt_ident(&a.alias),
        span: a.span,
    }
}

pub open spec fn same_trait_decl(a: TraitDecl, b: TraitDecl) -> bool
    decreases a,
{
    &&& same_ident(a.name, b.name)
    &&& same_generic_params(a.generics, b.generics)
    &&& same_fn_decls(a.methods, b.methods)
    &&& b.is_pub == a.is_pub
    &&& b.span == a.span
}

pub fn copy_trait_decl(a: &TraitDecl) -> (r: TraitDecl)
    ensures
        same_trait_decl(*a, r),
    decreases *a,
{
    TraitDecl {
        name: copy_ident(&a.name),
        generics: copy_generic_params(&a.generics),
        methods: copy_fn_decls(&a.methods),
        is_pub: a.is_pub,
        span: a.span,
    }
}

pub open spec fn same_impl_decl(a: ImplDecl, b: ImplDecl) -> bool
    decreases a,
{
    &&& same_ident(a.trait_name, b.trait_name)
    &&& same_type_expr(a.for_type, b.for_type)
    &&& same_fn_decls(a.methods, b.methods)
    &&& b.span == a.span
}

pub fn copy_impl_decl(a: &ImplDecl) -> (r: ImplDecl)
    ensures
        same_impl_decl(*a, r),
    decreases *a,
{
    ImplDecl {
        trait_name: copy_ident(&a.trait_name),
        for_type: copy_type_expr(&a.for_type),
        methods: copy_fn_decls(&a.methods),
        span: a.span,
    }
}

pub open spec fn same_let_decl(a: LetDecl, b: LetDecl) -> bool
    decreases a,
{
    &&& same_ident(a.name, b.name)
    &&& same_type_expr(a.ty, b.ty)
    &&& same_expr(a.value, b.value)
    &&& b.is_pub == a.is_pub
    &&& b.span == a.span
}

pub fn copy_let_decl(a: &LetDecl) -> (r: LetDecl)
    ensures
        same_let_decl(*a, r),
    decreases *a,
{
    LetDecl {
        name: copy_ident(&a.name),
        ty: copy_type_expr(&a.ty),
        value: copy_expr(&a.value),
        is_pub: a.is_pub,
        span: a.span,
    }
}

pub open spec fn same_enum_decl(a: EnumDecl, b: EnumDecl) -> bool
    decreases a,
{
    &&& same_ident(a.name, b.name)
    &&& same_enum_variants(a.variants, b.variants)
    &&& b.is_pub == a.is_pub
    &&& b.is_extern == a.is_extern
    &&& b.is_error == a.is_error
    &&& opt_view(b.cpp_namespace) == opt_view(a.cpp_namespace)
    &&& b.span == a.span
}

pub fn copy_enum_decl(a: &EnumDecl) -> (r: EnumDecl)
    ensures
        same_enum_decl(*a, r),
    decreases *a,
{
    EnumDecl {
        name: copy_ident(&a.name),
        variants: copy_enum_variants(&a.variants),
        is_pub: a.is_pub,
        is_extern: a.is_extern,
        is_error: a.is_error,
        cpp_namespace: copy_opt_string(&a.cpp_namespace),
        span: a.span,
    }
}

pub open spec fn same_flags_decl(a: FlagsDecl, b: FlagsDecl) -> bool
    decreases a,
{
    &&& same_ident(a.name, b.name)
    &&& same_ident(a.of, b.of)
    &&& b.is_pub == a.is_pub
    &&& b.is_extern == a.is_extern
    &&& opt_view(b.cpp_namespace) == opt_view(a.cpp_namespace)
    &&& b.span == a.span
}

pub fn copy_flags_decl(a: &FlagsDecl) -> (r: FlagsDecl)
    ensures
        same_flags_decl(*a, r),
    decreases *a,
{
    FlagsDecl {
        name: copy_ident(&a.name),
        of: copy_ident(&a.of),
        is_pub: a.is_pub,
        is_extern: a.is_extern,
        cpp_namespace: copy_opt_string(&a.cpp_namespace),
        span: a.span,
    }
}

pub open spec fn same_store_decl(a: StoreDecl, b: StoreDecl) -> bool
    decreases a,
{
    &&& same_ident(a.name, b.name)
    &&& same_state_fields(a.state_fields, b.state_fields)
    &&& same_class_members(a.members, b.members)
    &&& b.is_pub == a.is_pub
    &&& b.span == a.span
}

pub fn copy_store_decl(a: &StoreDecl) -> (r: StoreDecl)
    ensures
        same_store_decl(*a, r),
    decreases *a,
{
    StoreDecl {
        name: copy_ident(&a.name),
        state_fields: copy_state_fields(&a.state_fields),
        members: copy_class_members(&a.members),
        is_pub: a.is_pub,
        span: a.span,
    }
}

pub open spec fn same_suite_decl(a: SuiteDecl, b: SuiteDecl) -> bool
    decreases a,
{
    &&& b.name@ == a.name@
    &&& same_fn_decls(a.tests, b.tests)
    &&& b.span == a.span
}

pub fn copy_suite_decl(a: &SuiteDecl) -> (r: SuiteDecl)
    ensures
        same_suite_decl(*a, r),
    decreases *a,
{
    SuiteDecl {
        name: a.name.clone(),
        tests: copy_fn_decls(&a.tests),
        span: a.span,
    }
}

pub open spec fn same_ident(a: Ident, b: Ident) -> bool
    decreases a,
{
    &&& b.name@ == a.name@
    &&& b.span == a.span
}

pub fn copy_ident(a: &Ident) -> (r: Ident)
    ensures
        same_ident(*a, r),
    decreases *a,
{
    Ident {
        name: a.name.clone(),
        span: a.span,
    }
}

pub open spec fn same_generic_params(a: Vec<GenericParam>, b: Vec<GenericParam>) -> bool
    decreases a,
{
    &&& a@.len() == b@.len()
    &&& forall|i: int| 0 <= i < a@.len() ==> same_generic_param(#[trigger] a[i], b[i])
}

pub fn copy_generic_params(a: &Vec<GenericParam>) -> (r: Vec<GenericParam>)
    ensures
        same_generic_params(*a, r),
    decreases *a,
{
    let mut out: Vec<GenericParam> = Vec::new();
    let mut i: usize = 0;
    while i < a.len()
        invariant
            i <= a@.len(),
            out@.len() == i,
            forall|j: int| 0 <= j < i ==> same_generic_param(#[trigger] a[j], out[j]),
        decreases a@.len() - i,
    {
        assert(decreases_to!(*a => a[i as int]));
        let x = copy_generic_param(&a[i]);
        out.push(x);
        i += 1;
    }
    out
}

pub open spec fn same_opt_type_expr(a: Option<TypeExpr>, b: Option<TypeExpr>) -> bool
    decreases a,
{
    match a {
        Some(x) => b is Some && same_type_expr(x, b->0),
        None => b is None,
    }
}

pub fn copy_opt_type_expr(a: &Option<TypeExpr>) -> (r: Option<TypeExpr>)
    ensures
        same_opt_type_expr(*a, r),
    decreases *a,
{
    match a {
        Some(x) => Some(copy_type_expr(x)),
        None => None,
    }
}

pub open spec fn same_class_members(a: Vec<ClassMember>, b: Vec<ClassMember>) -> bool
    decreases a,
{
    &&& a@.len() == b@.len()
    &&& forall|i: int| 0 <= i < a@.len() ==> same_class_member(#[trigger] a[i], b[i])
}

pub fn copy_class_members(a: &Vec<ClassMember>) -> (r: Vec<ClassMember>)
    ensures
        same_class_members(*a, r),
    decreases *a,
{
    let mut out: Vec<ClassMember> = Vec::new();
    let mut i: usize = 0;
    while i < a.len()
        invariant
            i <= a@.len(),
            out@.len() == i,
            forall|j: int| 0 <= j < i ==> same_class_member(#[trigger] a[j], out[j]),
        decreases a@.len() - i,
    {
        assert(decreases_to!(*a => a[i as int]));
        let x = copy_class_member(&a[i]);
        out.push(x);
        i += 1;
    }
    out
}

pub open spec fn same_fields(a: Vec<Field>, b: Vec<Field>) -> bool
    decreases a,
{
    &&& a@.len() == b@.len()
    &&& forall|i: int| 0 <= i < a@.len() ==> same_field(#[trigger] a[i], b[i])
}

pub fn copy_fields(a: &Vec<Field>) -> (r: Vec<Field>)
    ensures
        same_fields(*a, r),
    decreases *a,
{
    let mut out: Vec<Field> = Vec::new();
    let mut i: usize = 0;
    while i < a.len()
        invariant
            i <= a@.len(),
            out@.len() == i,
            forall|j: int| 0 <= j < i ==> same_field(#[trigger] a[j], out[j]),
        decreases a@.len() - i,
    {
        assert(decreases_to!(*a => a[i as int]));
        let x = copy_field(&a[i]);
        out.push(x);
        i += 1;
    }
    out
}

pub open spec fn same_fn_decls(a: Vec<FnDecl>, b: Vec<FnDecl>) -> bool
    decreases a,
{
    &&& a@.len() == b@.len()
    &&& forall|i: int| 0 <= i < a@.len() ==> same_fn_decl(#[trigger] a[i], b[i])
}

pub fn copy_fn_decls(a: &Vec<FnDecl>) -> (r: Vec<FnDecl>)
    ensures
        same_fn_decls(*a, r),
    decreases *a,
{
    let mut out: Vec<FnDecl> = Vec::new();
    let mut i: usize = 0;
    while i < a.len()
        invariant
            i <= a@.len(),
            out@.len() == i,
            forall|j: int| 0 <= j < i ==> same_fn_decl(#[trigger] a[j], out[j]),
        decreases a@.len() - i,
    {
        assert(decreases_to!(*a => a[i as int]));
        let x = copy_fn_decl(&a[i]);
        out.push(x);
        i += 1;
    }
    out
}

pub open spec fn same_params(a: Vec<Param>, b: Vec<Param>) -> bool
    decreases a,
{
    &&& a@.len() == b@.len()
    &&& forall|i: int| 0 <= i < a@.len() ==> same_param(#[trigger] a[i], b[i])
}

pub fn copy_params(a: &Vec<Param>) -> (r: Vec<Param>)
    ensures
        same_params(*a, r),
    decreases *a,
{
    let mut out: Vec<Param> = Vec::new();
    let mut i: usize = 0;
    while i < a.len()
        invariant
            i <= a@.len(),
            out@.len() == i,
            forall|j: int| 0 <= j < i ==> same_param(#[trigger] a[j], out[j]),
        decreases a@.len() - i,
    {
        assert(decreases_to!(*a => a[i as int]));
        let x = copy_param(&a[i]);
        out.push(x);
        i += 1;
    }
    out
}

pub open spec fn same_opt_block(a: Option<Block>, b: Option<Block>) -> bool
    decreases a,
{
    match a {
        Some(x) => b is Some && same_block(x, b->0),
        None => b is None,
    }
}

pub fn copy_opt_block(a: &Option<Block>) -> (r: Option<Block>)
    ensures
        same_opt_block(*a, r),
    decreases *a,
{
    match a {
        Some(x) => Some(copy_block(x)),
        None => None,
    }
}

pub open spec fn same_attributes(a: Vec<Attribute>, b: Vec<Attribute>) -> bool
    decreases a,
{
    &&& a@.len() == b@.len()
    &&& forall|i: int| 0 <= i < a@.len() ==> same_attribute(#[trigger] a[i], b[i])
}

pub fn copy_attributes(a: &Vec<Attribute>) -> (r: Vec<Attribute>)
    ensures
        same_attributes(*a, r),
    decreases *a,
{
    let mut out: Vec<Attribute> = Vec::new();
    let mut i: usize = 0;
    while i < a.len()
        invariant
            i <= a@.len(),
            out@.len() == i,
            forall|j: int| 0 <= j < i ==> same_attribute(#[trigger] a[j], out[j]),
        decreases a@.len() - i,
    {
        assert(decreases_to!(*a => a[i as int]));
        let x = copy_attribute(&a[i]);
        out.push(x);
        i += 1;
    }
    out
}

pub open spec fn same_state_fields(a: Vec<StateField>, b: Vec<StateField>) -> bool
    decreases a,
{
    &&& a@.len() == b@.len()
    &&& forall|i: int| 0 <= i < a@.len() ==> same_state_field(#[trigger] a[i], b[i])
}

pub fn copy_state_fields(a: &Vec<StateField>) -> (r: Vec<StateField>)
    ensures
        same_state_fields(*a, r),
    decreases *a,
{
    let mut out: Vec<StateField> = Vec::new();
    let mut i: usize = 0;
    while i < a.len()
        invariant
            i <= a@.len(),
            out@.len() == i,
            forall|j: int| 0 <= j < i ==> same_state_field(#[trigger] a[j], out[j]),
        decreases a@.len() - i,
    {
        assert(decreases_to!(*a => a[i as int]));
        let x = copy_state_field(&a[i]);
        out.push(x);
        i += 1;
    }
    out
}

pub open spec fn same_element(a: Element, b: Element) -> bool
    decreases a,
{
    &&& same_idents(a.path, b.path)
    &&& same_ident(a.name, b.name)
    &&& same_element_members(a.members, b.members)
    &&& b.span == a.span
}

pub fn copy_element(a: &Element) -> (r: Element)
    ensures
        same_element(*a, r),
    decreases *a,
{
    Element {
        path: copy_idents(&a.path),
        name: copy_ident(&a.name),
        members: copy_element_members(&a.members),
        span: a.span,
    }
}

pub open spec fn same_style_body(a: StyleBody, b: StyleBody) -> bool
    decreases a,
{
    match a {
        StyleBody::Lit(x) => match b {
            StyleBody::Lit(y) => same_style_entries(x, y),
            _ => false,
        },
        StyleBody::Alias(x) => match b {
            StyleBody::Alias(y) => same_expr(x, y),
            _ => false,
        },
    }
}

pub fn copy_style_body(a: &StyleBody) -> (r: StyleBody)
    ensures
        same_style_body(*a, r),
    decreases *a,
{
    match a {
        StyleBody::Lit(x) => StyleBody::Lit(copy_style_entries(x)),
        StyleBody::Alias(x) => StyleBody::Alias(copy_expr(x)),
    }
}

pub open spec fn same_idents(a: Vec<Ident>, b: Vec<Ident>) -> bool
    decreases a,
{
    &&& a@.len() == b@.len()
    &&& forall|i: int| 0 <= i < a@.len() ==> same_ident(#[trigger] a[i], b[i])
}

pub fn copy_idents(a: &Vec<Ident>) -> (r: Vec<Ident>)
    ensures
        same_idents(*a, r),
    decreases *a,
{
    let mut out: Vec<Ident> = Vec::new();
    let mut i: usize = 0;
    while i < a.len()
        invariant
            i <= a@.len(),
            out@.len() == i,
            forall|j: int| 0 <= j < i ==> same_ident(#[trigger] a[j], out[j]),
        decreases a@.len() - i,
    {
        assert(decreases_to!(*a => a[i as int]));
        let x = copy_ident(&a[i]);
        out.push(x);
        i += 1;
    }
    out
}

pub open spec fn same_use_kind(a: UseKind, b: UseKind) -> bool
    decreases a,
{
    match a {
        UseKind::Module(x) => match b {
            UseKind::Module(y) => same_opt_ident(x, y),
            _ => false,
        },
        UseKind::Names(x) => match b {
            UseKind::Names(y) => same_use_names(x, y),
            _ => false,
        },
    }
}

pub fn copy_use_kind(a: &UseKind) -> (r: UseKind)
    ensures
        same_use_kind(*a, r),
    decreases *a,
{
    match a {
        UseKind::Module(x) => UseKind::Module(copy_opt_ident(x)),
        UseKind::Names(x) => UseKind::Names(copy_use_names(x)),
    }
}

pub open spec fn same_opt_ident(a: Option<Ident>, b: Option<Ident>) -> bool
    decreases a,
{
    match a {
        Some(x) => b is Some && same_ident(x, b->0),
        None => b is None,
    }
}

pub fn copy_opt_ident(a: &Option<Ident>) -> (r: Option<Ident>)
    ensures
        same_opt_ident(*a, r),
    decreases *a,
{
    match a {
        Some(x) => Some(copy_ident(x)),
        None => None,
    }
}

pub open spec fn same_type_expr(a: TypeExpr, b: TypeExpr) -> bool
    decreases a,
{
    &&& same_type_kind(a.kind, b.kind)
    &&& b.span == a.span
}

pub fn copy_type_expr(a: &TypeExpr) -> (r: TypeExpr)
    ensures
        same_type_expr(*a, r),
    decreases *a,
{
    TypeExpr {
        kind: copy_type_kind(&a.kind),
        span: a.span,
    }
}

pub open spec fn same_expr(a: Expr, b: Expr) -> bool
    decreases a,
{
    &&& same_expr_kind(a.kind, b.kind)
    &&& b.span == a.span
}

pub fn copy_expr(a: &Expr) -> (r: Expr)
    ensures
        same_expr(*a, r),
    decreases *a,
{
    Expr {
        kind: copy_expr_kind(&a.kind),
        span: a.span,
    }
}

pub open spec fn same_enum_variants(a: Vec<EnumVariant>, b: Vec<EnumVariant>) -> bool
    decreases a,
{
    &&& a@.len() == b@.len()
    &&& forall|i: int| 0 <= i < a@.len() ==> same_enum_variant(#[trigger] a[i], b[i])
}

pub fn copy_enum_variants(a: &Vec<EnumVariant>) -> (r: Vec<EnumVariant>)
    ensures
        same_enum_variants(*a, r),
    decreases *a,
{
    let mut out: Vec<EnumVariant> = Vec::new();
    let mut i: usize = 0;
    while i < a.len()
        invariant
            i <= a@.len(),
            out@.len() == i,
            forall|j: int| 0 <= j < i ==> same_enum_variant(#[trigger] a[j], out[j]),
        decreases a@.len() - i,
    {
        assert(decreases_to!(*a => a[i as int]));
        let x = copy_enum_variant(&a[i]);
        out.push(x);
        i += 1;
    }
    out
}

pub open spec fn same_generic_param(a: GenericParam, b: GenericParam) -> bool
    decreases a,
{
    &&& same_ident(a.name, b.name)
    &&& same_idents(a.bounds, b.bounds)
}

pub fn copy_generic_param(a: &GenericParam) -> (r: GenericParam)
    ensures
        same_generic_param(*a, r),
    decreases *a,
{
    GenericParam {
        name: copy_ident(&a.name),
        bounds: copy_idents(&a.bounds),
    }
}

pub open spec fn same_class_member(a: ClassMember, b: ClassMember) -> bool
    decreases a,
{
    match a {
        ClassMember::Property(x) => match b {
            ClassMember::Property(y) => same_property_decl(x, y),
            _ => false,
        },
        ClassMember::Signal(x) => match b {
            ClassMember::Signal(y) => same_signal_decl(x, y),
            _ => false,
        },
        ClassMember::Fn(x) => match b {
            ClassMember::Fn(y) => same_fn_decl(x, y),
            _ => false,
        },
        ClassMember::Slot(x) => match b {
            ClassMember::Slot(y) => same_fn_decl(x, y),
            _ => false,
        },
        ClassMember::Field(x) => match b {
            ClassMember::Field(y) => same_field(x, y),
            _ => false,
        },
        ClassMember::Init(x) => match b {
            ClassMember::Init(y) => same_init_decl(x, y),
            _ => false,
        },
        ClassMember::Deinit(x) => match b {
            ClassMember::Deinit(y) => same_deinit_decl(x, y),
            _ => false,
        },
    }
}

pub fn copy_class_member(a: &ClassMember) -> (r: ClassMember)
    ensures
        same_class_member(*a, r),
    decreases *a,
{
    match a {
        ClassMember::Property(x) => ClassMember::Property(copy_property_decl(x)),
        ClassMember::Signal(x) => ClassMember::Signal(copy_signal_decl(x)),
        ClassMember::Fn(x) => ClassMember::Fn(copy_fn_decl(x)),
        ClassMember::Slot(x) => ClassMember::Slot(copy_fn_decl(x)),
        ClassMember::Field(x) => ClassMember::Field(copy_field(x)),
        ClassMember::Init(x) => ClassMember::Init(copy_init_decl(x)),
        ClassMember::Deinit(x) => ClassMember::Deinit(copy_deinit_decl(x)),
    }
}

pub open spec fn same_field(a: Field, b: Field) -> bool
    decreases a,
{
    &&& same_ident(a.name, b.name)
    &&& same_type_expr(a.ty, b.ty)
    &&& same_opt_expr(a.default, b.default)
    &&& b.is_pub == a.is_pub
    &&& b.is_mut == a.is_mut
    &&& b.weak == a.weak
    &&& b.unowned == a.unowned
    &&& b.span == a.span
    &&& b.block_id == a.block_id
}

pub fn copy_field(a: &Field) -> (r: Field)
    ensures
        same_field(*a, r),
    decreases *a,
{
    Field {
        name: copy_ident(&a.name),
        ty: copy_type_expr(&a.ty),
        default: copy_opt_expr(&a.default),
        is_pub: a.is_pub,
        is_mut: a.is_mut,
        weak: a.weak,
        unowned: a.unowned,
        span: a.span,
        block_id: a.block_id,
    }
}

pub open spec fn same_param(a: Param, b: Param) -> bool
    decreases a,
{
    &&& same_ident(a.name, b.name)
    &&& same_type_expr(a.ty, b.ty)
    &&& same_opt_expr(a.default, b.default)
    &&& b.is_escaping == a.is_escaping
    &&& b.is_consuming == a.is_consuming
    &&& b.span == a.span
}

pub fn copy_param(a: &Param) -> (r: Param)
    ensures
        same_param(*a, r),
    decreases *a,
{
    Param {
        name: copy_ident(&a.name),
        ty: copy_type_expr(&a.ty),
        default: copy_opt_expr(&a.default),
        is_escaping: a.is_escaping,
        is_consuming: a.is_consuming,
        span: a.span,
    }
}

pub open spec fn same_block(a: Block, b: Block) -> bool
    decreases a,
{
    &&& same_stmts(a.stmts, b.stmts)
    &&& same_opt_boxed_expr(a.trailing, b.trailing)
    &&& b.span == a.span
}

pub fn copy_block(a: &Block) -> (r: Block)
    ensures
        same_block(*a, r),
    decreases *a,
{
    Block {
        stmts: copy_stmts(&a.stmts),
        trailing: copy_opt_boxed_expr(&a.trailing),
        span: a.span,
    }
}

pub open spec fn same_attribute(a: Attribute, b: Attribute) -> bool
    decreases a,
{
    &&& same_ident(a.name, b.name)
    &&& same_idents(a.args, b.args)
    &&& b.span == a.span
}

pub fn copy_attribute(a: &Attribute) -> (r: Attribute)
    ensures
        same_attribute(*a, r),
    decreases *a,
{
    Attribute {
        name: copy_ident(&a.name),
        args: copy_idents(&a.args),
        span: a.span,
    }
}

pub open spec fn same_state_field(a: StateField, b: StateField) -> bool
    decreases a,
{
    &&& same_ident(a.name, b.name)
    &&& same_state_field_kind(a.kind, b.kind)
    &&& same_expr(a.init_expr, b.init_expr)
    &&& b.span == a.span
}

pub fn copy_state_field(a: &StateField) -> (r: StateField)
    ensures
        same_state_field(*a, r),
    decreases *a,
{
    StateField {
        name: copy_ident(&a.name),
        kind: copy_state_field_kind(&a.kind),
        init_expr: copy_expr(&a.init_expr),
        span: a.span,
    }
}

pub open spec fn same_element_members(a: Vec<ElementMember>, b: Vec<ElementMember>) -> bool
    decreases a,
{
    &&& a@.len() == b@.len()
    &&& forall|i: int| 0 <= i < a@.len() ==> same_element_member(#[trigger] a[i], b[i])
}

pub fn copy_element_members(a: &Vec<ElementMember>) -> (r: Vec<ElementMember>)
    ensures
        same_element_members(*a, r),
    decreases *a,
{
    let mut out: Vec<ElementMember> = Vec::new();
    let mut i: usize = 0;
    while i < a.len()
        invariant
            i <= a@.len(),
            out@.len() == i,
            forall|j: int| 0 <= j < i ==> same_element_member(#[trigger] a[j], out[j]),
        decreases a@.len() - i,
    {
        assert(decreases_to!(*a => a[i as int]));
        let x = copy_element_member(&a[i]);
        out.push(x);
        i += 1;
    }
    out
}

pub open spec fn same_style_entries(a: Vec<StyleEntry>, b: Vec<StyleEntry>) -> bool
    decreases a,
{
    &&& a@.len() == b@.len()
    &&& forall|i: int| 0 <= i < a@.len() ==> same_style_entry(#[trigger] a[i], b[i])
}

pub fn copy_style_entries(a: &Vec<StyleEntry>) -> (r: Vec<StyleEntry>)
    ensures
        same_style_entries(*a, r),
    decreases *a,
{
    let mut out: Vec<StyleEntry> = Vec::new();
    let mut i: usize = 0;
    while i < a.len()
        invariant
            i <= a@.len(),
            out@.len() == i,
            forall|j: int| 0 <= j < i ==> same_style_entry(#[trigger] a[j], out[j]),
        decreases a@.len() - i,
    {
        assert(decreases_to!(*a => a[i as int]));
        let x = copy_style_entry(&a[i]);
        out.push(x);
        i += 1;
    }
    out
}

pub open spec fn same_use_names(a: Vec<UseName>, b: Vec<UseName>) -> bool
    decreases a,
{
    &&& a@.len() == b@.len()
    &&& forall|i: int| 0 <= i < a@.len() ==> same_use_name(#[trigger] a[i], b[i])
}

pub fn copy_use_names(a: &Vec<UseName>) -> (r: Vec<UseName>)
    ensures
        same_use_names(*a, r),
    decreases *a,
{
    let mut out: Vec<UseName> = Vec::new();
    let mut i: usize = 0;
    while i < a.len()
        invariant
            i <= a@.len(),
            out@.len() == i,
            forall|j: int| 0 <= j < i ==> same_use_name(#[trigger] a[j], out[j]),
        decreases a@.len() - i,
    {
        assert(decreases_to!(*a => a[i as int]));
        let x = copy_use_name(&a[i]);
        out.push(x);
        i += 1;
    }
    out
}

pub open spec fn same_type_kind(a: TypeKind, b: TypeKind) -> bool
    decreases a,
{
    match a {
        TypeKind::Named { path, args } => match b {
            TypeKind::Named { path: path2, args: args2 } => {
                &&& same_idents(path, path2)
                &&& same_type_exprs(args, args2)
            },
            _ => false,
        },
        TypeKind::Nullable(x) => match b {
            TypeKind::Nullable(y) => same_type_expr(*x, *y),
            _ => false,
        },
        TypeKind::ErrorUnion(x) => match b {
            TypeKind::ErrorUnion(y) => same_type_expr(*x, *y),
            _ => false,
        },
        TypeKind::Fn { params, ret } => match b {
            TypeKind::Fn { params: params2, ret: ret2 } => {
                &&& same_type_exprs(params, params2)
                &&& same_type_expr(*ret, *ret2)
            },
            _ => false,
        },
        TypeKind::SelfType => b is SelfType,
    }
}

pub fn copy_type_kind(a: &TypeKind) -> (r: TypeKind)
    ensures
        same_type_kind(*a, r),
    decreases *a,
{
    match a {
        TypeKind::Named { path, args } => TypeKind::Named {
            path: copy_idents(path),
            args: copy_type_exprs(args),
        },
        TypeKind::Nullable(x) => TypeKind::Nullable(Box::new(copy_type_expr(x))),
        TypeKind::ErrorUnion(x) => TypeKind::ErrorUnion(Box::new(copy_type_expr(x))),
        TypeKind::Fn { params, ret } => TypeKind::Fn {
            params: copy_type_exprs(params),
            ret: Box::new(copy_type_expr(ret)),
        },
        TypeKind::SelfType => TypeKind::SelfType,
    }
}

pub open spec fn same_expr_kind(a: ExprKind, b: ExprKind) -> bool
    decreases a,
{
    match a {
        ExprKind::Ident(x) => match b {
            ExprKind::Ident(y) => y@ == x@,
            _ => false,
        },
        ExprKind::Path(x) => match b {
            ExprKind::Path(y) => same_idents(x, y),
            _ => false,
        },
        ExprKind::Call { callee, args, block, type_args } => match b {
            ExprKind::Call { callee: callee2, args: args2, block: block2, type_args: type_args2 } => {
                &&& same_expr(*callee, *callee2)
                &&& same_exprs(args, args2)
                &&& same_opt_boxed_expr(block, block2)
                &&& same_type_exprs(type_args, type_args2)
            },
            _ => false,
        },
        ExprKind::MethodCall { receiver, method, args, block, type_args } => match b {
            ExprKind::MethodCall {
                receiver: receiver2,
                method: method2,
                args: args2,
                block: block2,
                type_args: type_args2,
            } => {
                &&& same_expr(*receiver, *receiver2)
                &&& same_ident(method, method2)
                &&& same_exprs(args, args2)
                &&& same_opt_boxed_expr(block, block2)
                &&& same_type_exprs(type_args, type_args2)
            },
            _ => false,
        },
        ExprKind::Member { receiver, name } => match b {
            ExprKind::Member { receiver: receiver2, name: name2 } => {
                &&& same_expr(*receiver, *receiver2)
                &&& same_ident(name, name2)
            },
            _ => false,
        },
        ExprKind::SafeMember { receiver, name } => match b {
            ExprKind::SafeMember { receiver: receiver2, name: name2 } => {
                &&& same_expr(*receiver, *receiver2)
                &&& same_ident(name, name2)
            },
            _ => false,
        },
        ExprKind::SafeMethodCall { receiver, method, args, block, type_args } => match b {
            ExprKind::SafeMethodCall {
                receiver: receiver2,
                method: method2,
                args: args2,
                block: block2,
                type_args: type_args2,
            } => {
                &&& same_expr(*receiver, *receiver2)
                &&& same_ident(method, method2)
                &&& same_exprs(args, args2)
                &&& same_opt_boxed_expr(block, block2)
                &&& same_type_exprs(type_args, type_args2)
            },
            _ => false,
        },
        ExprKind::Index { receiver, index } => match b {
            ExprKind::Index { receiver: receiver2, index: index2 } => {
                &&& same_expr(*receiver, *receiver2)
                &&& same_expr(*index, *index2)
            },
            _ => false,
        },
        ExprKind::Block(x) => match b {
            ExprKind::Block(y) => same_block(x, y),
            _ => false,
        },
        ExprKind::Lambda { params, body } => match b {
            ExprKind::Lambda { params: params2, body: body2 } => {
                &&& same_params(params, params2)
                &&& same_block(body, body2)
            },
            _ => false,
        },
        ExprKind::Unary { op, expr } => match b {
            ExprKind::Unary { op: op2, expr: expr2 } => {
                &&& op2 == op
                &&& same_expr(*expr, *expr2)
            },
            _ => false,
        },
        ExprKind::Binary { op, lhs, rhs } => match b {
            ExprKind::Binary { op: op2, lhs: lhs2, rhs: rhs2 } => {
                &&& op2 == op
                &&& same_expr(*lhs, *lhs2)
                &&& same_expr(*rhs, *rhs2)
            },
            _ => false,
        },
        ExprKind::Try(x) => match b {
            ExprKind::Try(y) => same_expr(*x, *y),
            _ => false,
        },
        ExprKind::Await(x) => match b {
            ExprKind::Await(y) => same_expr(*x, *y),
            _ => false,
        },
        ExprKind::If { cond, then_b, else_b, let_binding } => match b {
            ExprKind::If { cond: cond2, then_b: then_b2, else_b: else_b2, let_binding: let_binding2 } => {
                &&& same_expr(*cond, *cond2)
                &&& same_block(then_b, then_b2)
                &&& same_opt_block(else_b, else_b2)
                &&& same_opt_let_binding(let_binding, let_binding2)
            },
            _ => false,
        },
        ExprKind::Case { scrutinee, arms } => match b {
            ExprKind::Case { scrutinee: scrutinee2, arms: arms2 } => {
                &&& same_expr(*scrutinee, *scrutinee2)
                &&& same_case_arms(arms, arms2)
            },
            _ => false,
        },
        ExprKind::Kwarg { key, value } => match b {
            ExprKind::Kwarg { key: key2, value: value2 } => {
                &&& same_ident(key, key2)
                &&& same_expr(*value, *value2)
            },
            _ => false,
        },
        ExprKind::Element(x) => match b {
            ExprKind::Element(y) => same_element(x, y),
            _ => false,
        },
        ExprKind::Array(x) => match b {
            ExprKind::Array(y) => same_exprs(x, y),
            _ => false,
        },
        ExprKind::MapLit(x) => match b {
            ExprKind::MapLit(y) => same_map_entries(x, y),
            _ => false,
        },
        ExprKind::Range { start, end, inclusive } => match b {
            ExprKind::Range { start: start2, end: end2, inclusive: inclusive2 } => {
                &&& same_expr(*start, *start2)
                &&& same_expr(*end, *end2)
                &&& inclusive2 == inclusive
            },
            _ => false,
        },
        ExprKind::Str(x) => match b {
            ExprKind::Str(y) => same_str_parts(x, y),
            _ => false,
        },
        ExprKind::Int(_) => b == a,
        ExprKind::Float(x) => match b {
            ExprKind::Float(y) => y@ == x@,
            _ => false,
        },
        ExprKind::Bool(_) => b == a,
        ExprKind::Nil => b is Nil,
        ExprKind::Sym(x) => match b {
            ExprKind::Sym(y) => y@ == x@,
            _ => false,
        },
        ExprKind::AtIdent(x) => match b {
            ExprKind::AtIdent(y) => y@ == x@,
            _ => false,
        },
        ExprKind::SelfRef => b is SelfRef,
    }
}

pub fn copy_expr_kind(a: &ExprKind) -> (r: ExprKind)
    ensures
        same_expr_kind(*a, r),
    decreases *a,
{
    match a {
        ExprKind::Ident(x) => ExprKind::Ident(x.clone()),
        ExprKind::Path(x) => ExprKind::Path(copy_idents(x)),
        ExprKind::Call { callee, args, block, type_args } => ExprKind::Call {
            callee: Box::new(copy_expr(callee)),
            args: copy_exprs(args),
            block: copy_opt_boxed_expr(block),
            type_args: copy_type_exprs(type_args),
        },
        ExprKind::MethodCall { receiver, method, args, block, type_args } => ExprKind::MethodCall {
            receiver: Box::new(copy_expr(receiver)),
            method: copy_ident(method),
            args: copy_exprs(args),
            block: copy_opt_boxed_expr(block),
            type_args: copy_type_exprs(type_args),
        },
        ExprKind::Member { receiver, name } => ExprKind::Member {
            receiver: Box::new(copy_expr(receiver)),
            name: copy_ident(name),
        },
        ExprKind::SafeMember { receiver, name } => ExprKind::SafeMember {
            receiver: Box::new(copy_expr(receiver)),
            name: copy_ident(name),
        },
        ExprKind::SafeMethodCall { receiver, method, args, block, type_args } => ExprKind::SafeMethodCall {
            receiver: Box::new(copy_expr(receiver)),
            method: copy_ident(method),
            args: copy_exprs(args),
            block: copy_opt_boxed_expr(block),
            type_args: copy_type_exprs(type_args),
        },
        ExprKind::Index { receiver, index } => ExprKind::Index {
            receiver: Box::new(copy_expr(receiver)),
            index: Box::new(copy_expr(index)),
        },
        ExprKind::Block(x) => ExprKind::Block(copy_block(x)),
        ExprKind::Lambda { params, body } => ExprKind::Lambda {
            params: copy_params(params),
            body: copy_block(body),
        },
        ExprKind::Unary { op, expr } => ExprKind::Unary {
            op: *op,
            expr: Box::new(copy_expr(expr)),
        },
        ExprKind::Binary { op, lhs, rhs } => ExprKind::Binary {
            op: *op,
            lhs: Box::new(copy_expr(lhs)),
            rhs: Box::new(copy_expr(rhs)),
        },
        ExprKind::Try(x) => ExprKind::Try(Box::new(copy_expr(x))),
        ExprKind::Await(x) => ExprKind::Await(Box::new(copy_expr(x))),
        ExprKind::If { cond, then_b, else_b, let_binding } => ExprKind::If {
            cond: Box::new(copy_expr(cond)),
            then_b: copy_block(then_b),
            else_b: copy_opt_block(else_b),
            let_binding: copy_opt_let_binding(let_binding),
        },
        ExprKind::Case { scrutinee, arms } => ExprKind::Case {
            scrutinee: Box::new(copy_expr(scrutinee)),
            arms: copy_case_arms(arms),
        },
        ExprKind::Kwarg { key, value } => ExprKind::Kwarg {
            key: copy_ident(key),
            value: Box::new(copy_expr(value)),
        },
        ExprKind::Element(x) => ExprKind::Element(copy_element(x)),
        ExprKind::Array(x) => ExprKind::Array(copy_exprs(x)),
        ExprKind::MapLit(x) => ExprKind::MapLit(copy_map_entries(x)),
        ExprKind::Range { start, end, inclusive } => ExprKind::Range {
            start: Box::new(copy_expr(start)),
            end: Box::new(copy_expr(end)),
            inclusive: *inclusive,
        },
        ExprKind::Str(x) => ExprKind::Str(copy_str_parts(x)),
        ExprKind::Int(x) => ExprKind::Int(*x),
        ExprKind::Float(x) => ExprKind::Float(x.clone()),
        ExprKind::Bool(x) => ExprKind::Bool(*x),
        ExprKind::Nil => ExprKind::Nil,
        ExprKind::Sym(x) => ExprKind::Sym(x.clone()),
        ExprKind::AtIdent(x) => ExprKind::AtIdent(x.clone()),
        ExprKind::SelfRef => ExprKind::SelfRef,
    }
}

pub open spec fn same_enum_variant(a: EnumVariant, b: EnumVariant) -> bool
    decreases a,
{
    &&& same_ident(a.name, b.name)
    &&& same_opt_expr(a.value, b.value)
    &&& same_fields(a.fields, b.fields)
    &&& b.is_pub == a.is_pub
    &&& b.span == a.span
}

pub fn copy_enum_variant(a: &EnumVariant) -> (r: EnumVariant)
    ensures
        same_enum_variant(*a, r),
    decreases *a,
{
    EnumVariant {
        name: copy_ident(&a.name),
        value: copy_opt_expr(&a.value),
        fields: copy_fields(&a.fields),
        is_pub: a.is_pub,
        span: a.span,
    }
}

pub open spec fn same_property_decl(a: PropertyDecl, b: PropertyDecl) -> bool
    decreases a,
{
    &&& same_ident(a.name, b.name)
    &&& same_type_expr(a.ty, b.ty)
    &&& same_opt_ident(a.notify, b.notify)
    &&& same_opt_expr(a.default, b.default)
    &&& b.is_pub == a.is_pub
    &&& b.bindable == a.bindable
    &&& same_opt_expr(a.binding, b.binding)
    &&& same_opt_expr(a.fresh, b.fresh)
    &&& b.model == a.model
    &&& b.constant == a.constant
    &&& b.span == a.span
    &&& b.block_id == a.block_id
}

pub fn copy_property_decl(a: &PropertyDecl) -> (r: PropertyDecl)
    ensures
        same_property_decl(*a, r),
    decreases *a,
{
    PropertyDecl {
        name: copy_ident(&a.name),
        ty: copy_type_expr(&a.ty),
        notify: copy_opt_ident(&a.notify),
        default: copy_opt_expr(&a.default),
        is_pub: a.is_pub,
        bindable: a.bindable,
        binding: copy_opt_expr(&a.binding),
        fresh: copy_opt_expr(&a.fresh),
        model: a.model,
        constant: a.constant,
        span: a.span,
        block_id: a.block_id,
    }
}

pub open spec fn same_signal_decl(a: SignalDecl, b: SignalDecl) -> bool
    decreases a,
{
    &&& same_ident(a.name, b.name)
    &&& same_params(a.params, b.params)
    &&& b.is_pub == a.is_pub
    &&& b.span == a.span
}

pub fn copy_signal_decl(a: &SignalDecl) -> (r: SignalDecl)
    ensures
        same_signal_decl(*a, r),
    decreases *a,
{
    SignalDecl {
        name: copy_ident(&a.name),
        params: copy_params(&a.params),
        is_pub: a.is_pub,
        span: a.span,
    }
}

pub open spec fn same_init_decl(a: InitDecl, b: InitDecl) -> bool
    decreases a,
{
    &&& same_params(a.params, b.params)
    &&& same_block(a.body, b.body)
    &&& b.span == a.span
}

pub fn copy_init_decl(a: &InitDecl) -> (r: InitDecl)
    ensures
        same_init_decl(*a, r),
    decreases *a,
{
    InitDecl {
        params: copy_params(&a.params),
        body: copy_block(&a.body),
        span: a.span,
    }
}

pub open spec fn same_deinit_decl(a: DeinitDecl, b: DeinitDecl) -> bool
    decreases a,
{
    &&& same_block(a.body, b.body)
    &&& b.span == a.span
}

pub fn copy_deinit_decl(a: &DeinitDecl) -> (r: DeinitDecl)
    ensures
        same_deinit_decl(*a, r),
    decreases *a,
{
    DeinitDecl {
        body: copy_block(&a.body),
        span: a.span,
    }
}

pub open spec fn same_opt_expr(a: Option<Expr>, b: Option<Expr>) -> bool
    decreases a,
{
    match a {
        Some(x) => b is Some && same_expr(x, b->0),
        None => b is None,
    }
}

pub fn copy_opt_expr(a: &Option<Expr>) -> (r: Option<Expr>)
    ensures
        same_opt_expr(*a, r),
    decreases *a,
{
    match a {
        Some(x) => Some(copy_expr(x)),
        None => None,
    }
}

pub open spec fn same_stmts(a: Vec<Stmt>, b: Vec<Stmt>) -> bool
    decreases a,
{
    &&& a@.len() == b@.len()
    &&& forall|i: int| 0 <= i < a@.len() ==> same_stmt(#[trigger] a[i], b[i])
}

pub fn copy_stmts(a: &Vec<Stmt>) -> (r: Vec<Stmt>)
    ensures
        same_stmts(*a, r),
    decreases *a,
{
    let mut out: Vec<Stmt> = Vec::new();
    let mut i: usize = 0;
    while i < a.len()
        invariant
            i <= a@.len(),
            out@.len() == i,
            forall|j: int| 0 <= j < i ==> same_stmt(#[trigger] a[j], out[j]),
        decreases a@.len() - i,
    {
        assert(decreases_to!(*a => a[i as int]));
        let x = copy_stmt(&a[i]);
        out.push(x);
        i += 1;
    }
    out
}

pub open spec fn same_opt_boxed_expr(a: Option<Box<Expr>>, b: Option<Box<Expr>>) -> bool
    decreases a,
{
    match a {
        Some(x) => b is Some && same_expr(*x, *b->0),
        None => b is None,
    }
}

pub fn copy_opt_boxed_expr(a: &Option<Box<Expr>>) -> (r: Option<Box<Expr>>)
    ensures
        same_opt_boxed_expr(*a, r),
    decreases *a,
{
    match a {
        Some(x) => Some(Box::new(copy_expr(x))),
        None => None,
    }
}

pub open spec fn same_state_field_kind(a: StateFieldKind, b: StateFieldKind) -> bool
    decreases a,
{
    match a {
        StateFieldKind::Property { ty } => match b {
            StateFieldKind::Property { ty: ty2 } => {
                &&& same_type_expr(ty, ty2)
            },
            _ => false,
        },
        StateFieldKind::Object => b is Object,
    }
}

pub fn copy_state_field_kind(a: &StateFieldKind) -> (r: StateFieldKind)
    ensures
        same_state_field_kind(*a, r),
    decreases *a,
{
    match a {
        StateFieldKind::Property { ty } => StateFieldKind::Property {
            ty: copy_type_expr(ty),
        },
        StateFieldKind::Object => StateFieldKind::Object,
    }
}

pub open spec fn same_element_member(a: ElementMember, b: ElementMember) -> bool
    decreases a,
{
    match a {
        ElementMember::Property { key, value, span } => match b {
            ElementMember::Property { key: key2, value: value2, span: span2 } => {
                &&& key2@ == key@
                &&& same_expr(value, value2)
                &&& span2 == span
            },
            _ => false,
        },
        ElementMember::Child(x) => match b {
            ElementMember::Child(y) => same_element(x, y),
            _ => false,
        },
        ElementMember::Stmt(x) => match b {
            ElementMember::Stmt(y) => same_stmt(x, y),
            _ => false,
        },
    }
}

pub fn copy_element_member(a: &ElementMember) -> (r: ElementMember)
    ensures
        same_element_member(*a, r),
    decreases *a,
{
    match a {
        ElementMember::Property { key, value, span } => ElementMember::Property {
            key: key.clone(),
            value: copy_expr(value),
            span: *span,
        },
        ElementMember::Child(x) => ElementMember::Child(copy_element(x)),
        ElementMember::Stmt(x) => ElementMember::Stmt(copy_stmt(x)),
    }
}

pub open spec fn same_style_entry(a: StyleEntry, b: StyleEntry) -> bool
    decreases a,
{
    &&& b.key@ == a.key@
    &&& same_expr(a.value, b.value)
    &&& b.span == a.span
}

pub fn copy_style_entry(a: &StyleEntry) -> (r: StyleEntry)
    ensures
        same_style_entry(*a, r),
    decreases *a,
{
    StyleEntry {
        key: a.key.clone(),
        value: copy_expr(&a.value),
        span: a.span,
    }
}

pub open spec fn same_use_name(a: UseName, b: UseName) -> bool
    decreases a,
{
    &&& same_ident(a.name, b.name)
    &&& same_opt_ident(a.alias, b.alias)
}

pub fn copy_use_name(a: &UseName) -> (r: UseName)
    ensures
        same_use_name(*a, r),
    decreases *a,
{
    UseName {
        name: copy_ident(&a.name),
        alias: copy_opt_ident(&a.alias),
    }
}

pub open spec fn same_type_exprs(a: Vec<TypeExpr>, b: Vec<TypeExpr>) -> bool
    decreases a,
{
    &&& a@.len() == b@.len()
    &&& forall|i: int| 0 <= i < a@.len() ==> same_type_expr(#[trigger] a[i], b[i])
}

pub fn copy_type_exprs(a: &Vec<TypeExpr>) -> (r: Vec<TypeExpr>)
    ensures
        same_type_exprs(*a, r),
    decreases *a,
{
    let mut out: Vec<TypeExpr> = Vec::new();
    let mut i: usize = 0;
    while i < a.len()
        invariant
            i <= a@.len(),
            out@.len() == i,
            forall|j: int| 0 <= j < i ==> same_type_expr(#[trigger] a[j], out[j]),
        decreases a@.len() - i,
    {
        assert(decreases_to!(*a => a[i as int]));
        let x = copy_type_expr(&a[i]);
        out.push(x);
        i += 1;
    }
    out
}

pub open spec fn same_exprs(a: Vec<Expr>, b: Vec<Expr>) -> bool
    decreases a,
{
    &&& a@.len() == b@.len()
    &&& forall|i: int| 0 <= i < a@.len() ==> same_expr(#[trigger] a[i], b[i])
}

pub fn copy_exprs(a: &Vec<Expr>) -> (r: Vec<Expr>)
    ensures
        same_exprs(*a, r),
    decreases *a,
{
    let mut out: Vec<Expr> = Vec::new();
    let mut i: usize = 0;
    while i < a.len()
        invariant
            i <= a@.len(),
            out@.len() == i,
            forall|j: int| 0 <= j < i ==> same_expr(#[trigger] a[j], out[j]),
        decreases a@.len() - i,
    {
        assert(decreases_to!(*a => a[i as int]));
        let x = copy_expr(&a[i]);
        out.push(x);
        i += 1;
    }
    out
}

pub open spec fn same_opt_let_binding(a: Option<LetBinding>, b: Option<LetBinding>) -> bool
    decreases a,
{
    match a {
        Some(x) => b is Some && same_let_binding(x, b->0),
        None => b is None,
    }
}

pub fn copy_opt_let_binding(a: &Option<LetBinding>) -> (r: Option<LetBinding>)
    ensures
        same_opt_let_binding(*a, r),
    decreases *a,
{
    match a {
        Some(x) => Some(copy_let_binding(x)),
        None => None,
    }
}

pub open spec fn same_case_arms(a: Vec<CaseArm>, b: Vec<CaseArm>) -> bool
    decreases a,
{
    &&& a@.len() == b@.len()
    &&& forall|i: int| 0 <= i < a@.len() ==> same_case_arm(#[trigger] a[i], b[i])
}

pub fn copy_case_arms(a: &Vec<CaseArm>) -> (r: Vec<CaseArm>)
    ensures
        same_case_arms(*a, r),
    decreases *a,
{
    let mut out: Vec<CaseArm> = Vec::new();
    let mut i: usize = 0;
    while i < a.len()
        invariant
            i <= a@.len(),
            out@.len() == i,
            forall|j: int| 0 <= j < i ==> same_case_arm(#[trigger] a[j], out[j]),
        decreases a@.len() - i,
    {
        assert(decreases_to!(*a => a[i as int]));
        let x = copy_case_arm(&a[i]);
        out.push(x);
        i += 1;
    }
    out
}

pub open spec fn same_map_entries(a: Vec<MapEntry>, b: Vec<MapEntry>) -> bool
    decreases a,
{
    &&& a@.len() == b@.len()
    &&& forall|i: int| 0 <= i < a@.len() ==> same_map_entry(#[trigger] a[i], b[i])
}

pub fn copy_map_entries(a: &Vec<MapEntry>) -> (r: Vec<MapEntry>)
    ensures
        same_map_entries(*a, r),
    decreases *a,
{
    let mut out: Vec<MapEntry> = Vec::new();
    let mut i: usize = 0;
    while i < a.len()
        invariant
            i <= a@.len(),
            out@.len() == i,
            forall|j: int| 0 <= j < i ==> same_map_entry(#[trigger] a[j], out[j]),
        decreases a@.len() - i,
    {
        assert(decreases_to!(*a => a[i as int]));
        let x = copy_map_entry(&a[i]);
        out.push(x);
        i += 1;
    }
    out
}

pub open spec fn same_str_parts(a: Vec<StrPart>, b: Vec<StrPart>) -> bool
    decreases a,
{
    &&& a@.len() == b@.len()
    &&& forall|i: int| 0 <= i < a@.len() ==> same_str_part(#[trigger] a[i], b[i])
}

pub fn copy_str_parts(a: &Vec<StrPart>) -> (r: Vec<StrPart>)
    ensures
        same_str_parts(*a, r),
    decreases *a,
{
    let mut out: Vec<StrPart> = Vec::new();
    let mut i: usize = 0;
    while i < a.len()
        invariant
            i <= a@.len(),
            out@.len() == i,
            forall|j: int| 0 <= j < i ==> same_str_part(#[trigger] a[j], out[j]),
        decreases a@.len() - i,
    {
        assert(decreases_to!(*a => a[i as int]));
        let x = copy_str_part(&a[i]);
        out.push(x);
        i += 1;
    }
    out
}

pub open spec fn same_stmt(a: Stmt, b: Stmt) -> bool
    decreases a,
{
    match a {
        Stmt::Let { name, ty, value, span, block_id } => match b {
            Stmt::Let { name: name2, ty: ty2, value: value2, span: span2, block_id: block_id2 } => {
                &&& same_ident(name, name2)
                &&& same_opt_type_expr(ty, ty2)
                &&& same_expr(value, value2)
                &&& span2 == span
                &&& block_id2 == block_id
            },
            _ => false,
        },
        Stmt::Var { name, ty, value, span, block_id } => match b {
            Stmt::Var { name: name2, ty: ty2, value: value2, span: span2, block_id: block_id2 } => {
                &&& same_ident(name, name2)
                &&& same_opt_type_expr(ty, ty2)
                &&& same_expr(value, value2)
                &&& span2 == span
                &&& block_id2 == block_id
            },
            _ => false,
        },
        Stmt::Expr(x) => match b {
            Stmt::Expr(y) => same_expr(x, y),
            _ => false,
        },
        Stmt::Return { value, span } => match b {
            Stmt::Return { value: value2, span: span2 } => {
                &&& same_opt_expr(value, value2)
                &&& span2 == span
            },
            _ => false,
        },
        Stmt::Emit { signal, args, span } => match b {
            Stmt::Emit { signal: signal2, args: args2, span: span2 } => {
                &&& same_ident(signal, signal2)
                &&& same_exprs(args, args2)
                &&& span2 == span
            },
            _ => false,
        },
        Stmt::Assign { target, op, value, span } => match b {
            Stmt::Assign { target: target2, op: op2, value: value2, span: span2 } => {
                &&& same_expr(target, target2)
                &&& op2 == op
                &&& same_expr(value, value2)
                &&& span2 == span
            },
            _ => false,
        },
        Stmt::For { binding, iter, body, span } => match b {
            Stmt::For { binding: binding2, iter: iter2, body: body2, span: span2 } => {
                &&& same_ident(binding, binding2)
                &&& same_expr(iter, iter2)
                &&& same_block(body, body2)
                &&& span2 == span
            },
            _ => false,
        },
        Stmt::While { cond, body, span } => match b {
            Stmt::While { cond: cond2, body: body2, span: span2 } => {
                &&& same_expr(cond, cond2)
                &&& same_block(body, body2)
                &&& span2 == span
            },
            _ => false,
        },
        Stmt::Break { .. } => b == a,
        Stmt::Continue { .. } => b == a,
        Stmt::Batch { body, span } => match b {
            Stmt::Batch { body: body2, span: span2 } => {
                &&& same_block(body, body2)
                &&& span2 == span
            },
            _ => false,
        },
    }
}

pub fn copy_stmt(a: &Stmt) -> (r: Stmt)
    ensures
        same_stmt(*a, r),
    decreases *a,
{
    match a {
        Stmt::Let { name, ty, value, span, block_id } => Stmt::Let {
            name: copy_ident(name),
            ty: copy_opt_type_expr(ty),
            value: copy_expr(value),
            span: *span,
            block_id: *block_id,
        },
        Stmt::Var { name, ty, value, span, block_id } => Stmt::Var {
            name: copy_ident(name),
            ty: copy_opt_type_expr(ty),
            value: copy_expr(value),
            span: *span,
            block_id: *block_id,
        },
        Stmt::Expr(x) => Stmt::Expr(copy_expr(x)),
        Stmt::Return { value, span } => Stmt::Return {
            value: copy_opt_expr(value),
            span: *span,
        },
        Stmt::Emit { signal, args, span } => Stmt::Emit {
            signal: copy_ident(signal),
            args: copy_exprs(args),
            span: *span,
        },
        Stmt::Assign { target, op, value, span } => Stmt::Assign {
            target: copy_expr(target),
            op: *op,
            value: copy_expr(value),
            span: *span,
        },
        Stmt::For { binding, iter, body, span } => Stmt::For {
            binding: copy_ident(binding),
            iter: copy_expr(iter),
            body: copy_block(body),
            span: *span,
        },
        Stmt::While { cond, body, span } => Stmt::While {
            cond: copy_expr(cond),
            body: copy_block(body),
            span: *span,
        },
        Stmt::Break { span } => Stmt::Break {
            span: *span,
        },
        Stmt::Continue { span } => Stmt::Continue {
            span: *span,
        },
        Stmt::Batch { body, span } => Stmt::Batch {
            body: copy_block(body),
            span: *span,
        },
    }
}

pub open spec fn same_let_binding(a: LetBinding, b: LetBinding) -> bool
    decreases a,
{
    &&& same_pattern(a.pattern, b.pattern)
    &&& same_expr(*a.value, *b.value)
}

pub fn copy_let_binding(a: &LetBinding) -> (r: LetBinding)
    ensures
        same_let_binding(*a, r),
    decreases *a,
{
    LetBinding {
        pattern: copy_pattern(&a.pattern),
        value: Box::new(copy_expr(&a.value)),
    }
}

pub open spec fn same_case_arm(a: CaseArm, b: CaseArm) -> bool
    decreases a,
{
    &&& same_pattern(a.pattern, b.pattern)
    &&& same_block(a.body, b.body)
    &&& b.span == a.span
}

pub fn copy_case_arm(a: &CaseArm) -> (r: CaseArm)
    ensures
        same_case_arm(*a, r),
    decreases *a,
{
    CaseArm {
        pattern: copy_pattern(&a.pattern),
        body: copy_block(&a.body),
        span: a.span,
    }
}

pub open spec fn same_map_entry(a: MapEntry, b: MapEntry) -> bool
    decreases a,
{
    &&& same_expr(a.key, b.key)
    &&& same_expr(a.value, b.value)
}

pub fn copy_map_entry(a: &MapEntry) -> (r: MapEntry)
    ensures
        same_map_entry(*a, r),
    decreases *a,
{
    MapEntry {
        key: copy_expr(&a.key),
        value: copy_expr(&a.value),
    }
}

pub open spec fn same_str_part(a: StrPart, b: StrPart) -> bool
    decreases a,
{
    match a {
        StrPart::Text(x) => match b {
            StrPart::Text(y) => y@ == x@,
            _ => false,
        },
        StrPart::Interp(x) => match b {
            StrPart::Interp(y) => same_expr(*x, *y),
            _ => false,
        },
        StrPart::InterpFmt { expr, format_spec } => match b {
            StrPart::InterpFmt { expr: expr2, format_spec: format_spec2 } => {
                &&& same_expr(*expr, *expr2)
                &&& format_spec2@ == format_spec@
            },
            _ => false,
        },
    }
}

pub fn copy_str_part(a: &StrPart) -> (r: StrPart)
    ensures
        same_str_part(*a, r),
    decreases *a,
{
    match a {
        StrPart::Text(x) => StrPart::Text(x.clone()),
        StrPart::Interp(x) => StrPart::Interp(Box::new(copy_expr(x))),
        StrPart::InterpFmt { expr, format_spec } => StrPart::InterpFmt {
            expr: Box::new(copy_expr(expr)),
            format_spec: format_spec.clone(),
        },
    }
}

pub open spec fn same_pattern(a: Pattern, b: Pattern) -> bool
    decreases a,
{
    match a {
        Pattern::Ctor { name, args, span } => match b {
            Pattern::Ctor { name: name2, args: args2, span: span2 } => {
                &&& same_ident(name, name2)
                &&& same_patterns(args, args2)
                &&& span2 == span
            },
            _ => false,
        },
        Pattern::Literal { value, span } => match b {
            Pattern::Literal { value: value2, span: span2 } => {
                &&& same_expr(*value, *value2)
                &&& span2 == span
            },
            _ => false,
        },
        Pattern::Wild { .. } => b == a,
        Pattern::Bind { name, span } => match b {
            Pattern::Bind { name: name2, span: span2 } => {
                &&& same_ident(name, name2)
                &&& span2 == span
            },
            _ => false,
        },
    }
}

pub fn copy_pattern(a: &Pattern) -> (r: Pattern)
    ensures
        same_pattern(*a, r),
    decreases *a,
{
    match a {
        Pattern::Ctor { name, args, span } => Pattern::Ctor {
            name: copy_ident(name),
            args: copy_patterns(args),
            span: *span,
        },
        Pattern::Literal { value, span } => Pattern::Literal {
            value: Box::new(copy_expr(value)),
            span: *span,
        },
        Pattern::Wild { span } => Pattern::Wild {
            span: *span,
        },
        Pattern::Bind { name, span } => Pattern::Bind {
            name: copy_ident(name),
            span: *span,
        },
    }
}

pub open spec fn same_patterns(a: Vec<Pattern>, b: Vec<Pattern>) -> bool
    decreases a,
{
    &&& a@.len() == b@.len()
    &&& forall|i: int| 0 <= i < a@.len() ==> same_pattern(#[trigger] a[i], b[i])
}

pub fn copy_patterns(a: &Vec<Pattern>) -> (r: Vec<Pattern>)
    ensures
        same_patterns(*a, r),
    decreases *a,
{
    let mut out: Vec<Pattern> = Vec::new();
    let mut i: usize = 0;
    while i < a.len()
        invariant
            i <= a@.len(),
            out@.len() == i,
            forall|j: int| 0 <= j < i ==> same_pattern(#[trigger] a[j], out[j]),
        decreases a@.len() - i,
    {
        assert(decreases_to!(*a => a[i as int]));
        let x = copy_pattern(&a[i]);
        out.push(x);
        i += 1;
    }
    out
}

} // verus!
