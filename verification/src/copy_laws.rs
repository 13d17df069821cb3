//! What copies of syntax trees hold: every name, literal, operator, flag and
//! place of the tree, in its order.

use crate::ast::{
    AssignOp, Attribute, BinOp, Block, CaseArm, ClassDecl, ClassMember, DeinitDecl, Element,
    ElementMember, EnumDecl, EnumVariant, Expr, ExprKind, Field, FlagsDecl, FnDecl, GenericParam,
    Ident, ImplDecl, InitDecl, Item, LetBinding, LetDecl, MapEntry, Module, Param, Pattern,
    PropertyDecl, SignalDecl, Span, StateField, StateFieldKind, Stmt, StoreDecl, StrPart,
    StructDecl, StyleBody, StyleDecl, StyleEntry, SuiteDecl, TraitDecl, TypeExpr, TypeKind, UnaryOp,
    UseDecl, UseKind, UseName, UseQml, ViewDecl, WidgetDecl,
};
use crate::ast_copy::{
    same_attribute, same_attributes, same_block, same_case_arm, same_case_arms, same_class_decl,
    same_class_member, same_class_members, same_deinit_decl, same_element, same_element_member,
    same_element_members, same_enum_decl, same_enum_variant, same_enum_variants, same_expr,
    same_expr_kind, same_exprs, same_field, same_fields, same_flags_decl, same_fn_decl,
    same_fn_decls, same_generic_param, same_generic_params, same_ident, same_idents, same_impl_decl,
    same_init_decl, same_item, same_items, same_let_binding, same_let_decl, same_map_entries,
    same_map_entry, same_module, same_opt_block, same_opt_boxed_expr, same_opt_expr, same_opt_ident,
    same_opt_let_binding, same_opt_type_expr, same_param, same_params, same_pattern, same_patterns,
    same_property_decl, same_signal_decl, same_state_field, same_state_field_kind,
    same_state_fields, same_stmt, same_stmts, same_store_decl, same_str_part, same_str_parts,
    same_struct_decl, same_style_body, same_style_decl, same_style_entries, same_style_entry,
    same_suite_decl, same_trait_decl, same_type_expr, same_type_exprs, same_type_kind,
    same_use_decl, same_use_kind, same_use_name, same_use_names, same_use_qml, same_view_decl,
    same_widget_decl,
};
use crate::text::opt_view;
use vstd::prelude::*;

verus! {

/// A piece of a syntax tree: which form stands there, how many parts follow, or
/// what is written.
pub enum Word {
    Form(nat),
    Count(nat),
    Text(Seq<char>),
    MaybeText(Option<Seq<char>>),
    Number(int),
    Flag(bool),
    Place(Span),
    Owner(Option<u32>),
    Binary(BinOp),
    Unary(UnaryOp),
    Assign(AssignOp),
}

// ---- the words of a tree -----------------------------------------------------------

pub open spec fn words_module(a: Module) -> Seq<Word>
    decreases a, 0nat,
{
    (seq![Word::Count(a.items@.len())] + words_items(a.items, a.items@.len()))
        + seq![Word::Place(a.span)]
}

pub open spec fn words_items(a: Vec<Item>, n: nat) -> Seq<Word>
    decreases a, n,
{
    if n == 0 || n > a@.len() {
        Seq::empty()
    } else {
        words_items(a, (n - 1) as nat) + words_item(a[n - 1])
    }
}

pub open spec fn words_item(a: Item) -> Seq<Word>
    decreases a, 0nat,
{
    match a {
        Item::Class(x) => seq![Word::Form(0)] + words_class_decl(x),
        Item::Struct(x) => seq![Word::Form(1)] + words_struct_decl(x),
        Item::Fn(x) => seq![Word::Form(2)] + words_fn_decl(x),
        Item::View(x) => seq![Word::Form(3)] + words_view_decl(x),
        Item::Widget(x) => seq![Word::Form(4)] + words_widget_decl(x),
        Item::Style(x) => seq![Word::Form(5)] + words_style_decl(x),
        Item::Use(x) => seq![Word::Form(6)] + words_use_decl(x),
        Item::UseQml(x) => seq![Word::Form(7)] + words_use_qml(x),
        Item::Trait(x) => seq![Word::Form(8)] + words_trait_decl(x),
        Item::Impl(x) => seq![Word::Form(9)] + words_impl_decl(x),
        Item::Let(x) => seq![Word::Form(10)] + words_let_decl(x),
        Item::Enum(x) => seq![Word::Form(11)] + words_enum_decl(x),
        Item::Flags(x) => seq![Word::Form(12)] + words_flags_decl(x),
        Item::Store(x) => seq![Word::Form(13)] + words_store_decl(x),
        Item::Suite(x) => seq![Word::Form(14)] + words_suite_decl(x),
    }
}

pub open spec fn words_class_decl(a: ClassDecl) -> Seq<Word>
    decreases a, 0nat,
{
    words_ident(a.name)
        + (seq![Word::Count(a.generics@.len())] + words_generic_params(a.generics, a.generics@.len()))
        + words_opt_type_expr(a.super_class)
        + (seq![Word::Count(a.members@.len())] + words_class_members(a.members, a.members@.len()))
        + seq![Word::Flag(a.is_pub)]
        + seq![Word::Flag(a.is_extern_value)]
        + seq![Word::Flag(a.is_arc)]
        + seq![Word::Flag(a.is_copyable)]
        + seq![Word::Place(a.span)]
}

pub open spec fn words_struct_decl(a: StructDecl) -> Seq<Word>
    decreases a, 0nat,
{
    words_ident(a.name)
        + (seq![Word::Count(a.fields@.len())] + words_fields(a.fields, a.fields@.len()))
        + (seq![Word::Count(a.methods@.len())] + words_fn_decls(a.methods, a.methods@.len()))
        + seq![Word::Flag(a.is_pub)]
        + seq![Word::Flag(a.is_copyable)]
        + seq![Word::Place(a.span)]
}

pub open spec fn words_fn_decl(a: FnDecl) -> Seq<Word>
    decreases a, 0nat,
{
    seq![Word::Flag(a.is_async)]
        + words_ident(a.name)
        + (seq![Word::Count(a.generics@.len())] + words_generic_params(a.generics, a.generics@.len()))
        + (seq![Word::Count(a.params@.len())] + words_params(a.params, a.params@.len()))
        + words_opt_type_expr(a.return_ty)
        + words_opt_block(a.body)
        + seq![Word::Flag(a.is_pub)]
        + seq![Word::Flag(a.is_test)]
        + seq![Word::MaybeText(opt_view(a.display_name))]
        + (seq![Word::Count(a.attributes@.len())] + words_attributes(a.attributes, a.attributes@.len()))
        + seq![Word::Place(a.span)]
}

pub open spec fn words_view_decl(a: ViewDecl) -> Seq<Word>
    decreases a, 0nat,
{
    words_ident(a.name)
        + (seq![Word::Count(a.params@.len())] + words_params(a.params, a.params@.len()))
        + (seq![Word::Count(a.state_fields@.len())]
            + words_state_fields(a.state_fields, a.state_fields@.len()))
        + words_element(a.root)
        + seq![Word::Flag(a.is_pub)]
        + seq![Word::Place(a.span)]
}

pub open spec fn words_widget_decl(a: WidgetDecl) -> Seq<Word>
    decreases a, 0nat,
{
    words_ident(a.name)
        + (seq![Word::Count(a.params@.len())] + words_params(a.params, a.params@.len()))
        + (seq![Word::Count(a.state_fields@.len())]
            + words_state_fields(a.state_fields, a.state_fields@.len()))
        + words_element(a.root)
        + seq![Word::Flag(a.is_pub)]
        + seq![Word::Place(a.span)]
}

pub open spec fn words_style_decl(a: StyleDecl) -> Seq<Word>
    decreases a, 0nat,
{
    words_ident(a.name)
        + words_style_body(a.body)
        + seq![Word::Flag(a.is_pub)]
        + seq![Word::Place(a.span)]
}

pub open spec fn words_use_decl(a: UseDecl) -> Seq<Word>
    decreases a, 0nat,
{
    (seq![Word::Count(a.path@.len())] + words_idents(a.path, a.path@.len()))
        + words_use_kind(a.kind)
        + seq![Word::Flag(a.is_pub)]
        + seq![Word::Place(a.span)]
}

pub open spec fn words_use_qml(a: UseQml) -> Seq<Word>
    decreases a, 0nat,
{
    seq![Word::Text(a.module_uri@)]
        + words_opt_ident(a.alias)
        + seq![Word::Place(a.span)]
}

pub open spec fn words_trait_decl(a: TraitDecl) -> Seq<Word>
    decreases a, 0nat,
{
    words_ident(a.name)
        + (seq![Word::Count(a.generics@.len())] + words_generic_params(a.generics, a.generics@.len()))
        + (seq![Word::Count(a.methods@.len())] + words_fn_decls(a.methods, a.methods@.len()))
        + seq![Word::Flag(a.is_pub)]
        + seq![Word::Place(a.span)]
}

pub open spec fn words_impl_decl(a: ImplDecl) -> Seq<Word>
    decreases a, 0nat,
{
    words_ident(a.trait_name)
        + words_type_expr(a.for_type)
        + (seq![Word::Count(a.methods@.len())] + words_fn_decls(a.methods, a.methods@.len()))
        + seq![Word::Place(a.span)]
}

pub open spec fn words_let_decl(a: LetDecl) -> Seq<Word>
    decreases a, 0nat,
{
    words_ident(a.name)
        + words_type_expr(a.ty)
        + words_expr(a.value)
        + seq![Word::Flag(a.is_pub)]
        + seq![Word::Place(a.span)]
}

pub open spec fn words_enum_decl(a: EnumDecl) -> Seq<Word>
    decreases a, 0nat,
{
    words_ident(a.name)
        + (seq![Word::Count(a.variants@.len())] + words_enum_variants(a.variants, a.variants@.len()))
        + seq![Word::Flag(a.is_pub)]
        + seq![Word::Flag(a.is_extern)]
        + seq![Word::Flag(a.is_error)]
        + seq![Word::MaybeText(opt_view(a.cpp_namespace))]
        + seq![Word::Place(a.span)]
}

pub open spec fn words_flags_decl(a: FlagsDecl) -> Seq<Word>
    decreases a, 0nat,
{
    words_ident(a.name)
        + words_ident(a.of)
        + seq![Word::Flag(a.is_pub)]
        + seq![Word::Flag(a.is_extern)]
        + seq![Word::MaybeText(opt_view(a.cpp_namespace))]
        + seq![Word::Place(a.span)]
}

pub open spec fn words_store_decl(a: StoreDecl) -> Seq<Word>
    decreases a, 0nat,
{
    words_ident(a.name)
        + (seq![Word::Count(a.state_fields@.len())]
            + words_state_fields(a.state_fields, a.state_fields@.len()))
        + (seq![Word::Count(a.members@.len())] + words_class_members(a.members, a.members@.len()))
        + seq![Word::Flag(a.is_pub)]
        + seq![Word::Place(a.span)]
}

pub open spec fn words_suite_decl(a: SuiteDecl) -> Seq<Word>
    decreases a, 0nat,
{
    seq![Word::Text(a.name@)]
        + (seq![Word::Count(a.tests@.len())] + words_fn_decls(a.tests, a.tests@.len()))
        + seq![Word::Place(a.span)]
}

pub open spec fn words_ident(a: Ident) -> Seq<Word>
    decreases a, 0nat,
{
    seq![Word::Text(a.name@)]
        + seq![Word::Place(a.span)]
}

pub open spec fn words_generic_params(a: Vec<GenericParam>, n: nat) -> Seq<Word>
    decreases a, n,
{
    if n == 0 || n > a@.len() {
        Seq::empty()
    } else {
        words_generic_params(a, (n - 1) as nat) + words_generic_param(a[n - 1])
    }
}

pub open spec fn words_opt_type_expr(a: Option<TypeExpr>) -> Seq<Word>
    decreases a, 0nat,
{
    match a {
        Some(x) => seq![Word::Flag(true)] + words_type_expr(x),
        None => seq![Word::Flag(false)],
    }
}

pub open spec fn words_class_members(a: Vec<ClassMember>, n: nat) -> Seq<Word>
    decreases a, n,
{
    if n == 0 || n > a@.len() {
        Seq::empty()
    } else {
        words_class_members(a, (n - 1) as nat) + words_class_member(a[n - 1])
    }
}

pub open spec fn words_fields(a: Vec<Field>, n: nat) -> Seq<Word>
    decreases a, n,
{
    if n == 0 || n > a@.len() {
        Seq::empty()
    } else {
        words_fields(a, (n - 1) as nat) + words_field(a[n - 1])
    }
}

pub open spec fn words_fn_decls(a: Vec<FnDecl>, n: nat) -> Seq<Word>
    decreases a, n,
{
    if n == 0 || n > a@.len() {
        Seq::empty()
    } else {
        words_fn_decls(a, (n - 1) as nat) + words_fn_decl(a[n - 1])
    }
}

pub open spec fn words_params(a: Vec<Param>, n: nat) -> Seq<Word>
    decreases a, n,
{
    if n == 0 || n > a@.len() {
        Seq::empty()
    } else {
        words_params(a, (n - 1) as nat) + words_param(a[n - 1])
    }
}

pub open spec fn words_opt_block(a: Option<Block>) -> Seq<Word>
    decreases a, 0nat,
{
    match a {
        Some(x) => seq![Word::Flag(true)] + words_block(x),
        None => seq![Word::Flag(false)],
    }
}

pub open spec fn words_attributes(a: Vec<Attribute>, n: nat) -> Seq<Word>
    decreases a, n,
{
    if n == 0 || n > a@.len() {
        Seq::empty()
    } else {
        words_attributes(a, (n - 1) as nat) + words_attribute(a[n - 1])
    }
}

pub open spec fn words_state_fields(a: Vec<StateField>, n: nat) -> Seq<Word>
    decreases a, n,
{
    if n == 0 || n > a@.len() {
        Seq::empty()
    } else {
        words_state_fields(a, (n - 1) as nat) + words_state_field(a[n - 1])
    }
}

pub open spec fn words_element(a: Element) -> Seq<Word>
    decreases a, 0nat,
{
    (seq![Word::Count(a.path@.len())] + words_idents(a.path, a.path@.len()))
        + words_ident(a.name)
        + (seq![Word::Count(a.members@.len())] + words_element_members(a.members, a.members@.len()))
        + seq![Word::Place(a.span)]
}

pub open spec fn words_style_body(a: StyleBody) -> Seq<Word>
    decreases a, 0nat,
{
    match a {
        StyleBody::Lit(x) => seq![Word::Form(0)] + (seq![Word::Count(x@.len())]
            + words_style_entries(x, x@.len())),
        StyleBody::Alias(x) => seq![Word::Form(1)] + words_expr(x),
    }
}

pub open spec fn words_idents(a: Vec<Ident>, n: nat) -> Seq<Word>
    decreases a, n,
{
    if n == 0 || n > a@.len() {
        Seq::empty()
    } else {
        words_idents(a, (n - 1) as nat) + words_ident(a[n - 1])
    }
}

pub open spec fn words_use_kind(a: UseKind) -> Seq<Word>
    decreases a, 0nat,
{
    match a {
        UseKind::Module(x) => seq![Word::Form(0)] + words_opt_ident(x),
        UseKind::Names(x) => seq![Word::Form(1)] + (seq![Word::Count(x@.len())]
            + words_use_names(x, x@.len())),
    }
}

pub open spec fn words_opt_ident(a: Option<Ident>) -> Seq<Word>
    decreases a, 0nat,
{
    match a {
        Some(x) => seq![Word::Flag(true)] + words_ident(x),
        None => seq![Word::Flag(false)],
    }
}

pub open spec fn words_type_expr(a: TypeExpr) -> Seq<Word>
    decreases a, 0nat,
{
    words_type_kind(a.kind)
        + seq![Word::Place(a.span)]
}

pub open spec fn words_expr(a: Expr) -> Seq<Word>
    decreases a, 0nat,
{
    words_expr_kind(a.kind)
        + seq![Word::Place(a.span)]
}

pub open spec fn words_enum_variants(a: Vec<EnumVariant>, n: nat) -> Seq<Word>
    decreases a, n,
{
    if n == 0 || n > a@.len() {
        Seq::empty()
    } else {
        words_enum_variants(a, (n - 1) as nat) + words_enum_variant(a[n - 1])
    }
}

pub open spec fn words_generic_param(a: GenericParam) -> Seq<Word>
    decreases a, 0nat,
{
    words_ident(a.name)
        + (seq![Word::Count(a.bounds@.len())] + words_idents(a.bounds, a.bounds@.len()))
}

pub open spec fn words_class_member(a: ClassMember) -> Seq<Word>
    decreases a, 0nat,
{
    match a {
        ClassMember::Property(x) => seq![Word::Form(0)] + words_property_decl(x),
        ClassMember::Signal(x) => seq![Word::Form(1)] + words_signal_decl(x),
        ClassMember::Fn(x) => seq![Word::Form(2)] + words_fn_decl(x),
        ClassMember::Slot(x) => seq![Word::Form(3)] + words_fn_decl(x),
        ClassMember::Field(x) => seq![Word::Form(4)] + words_field(x),
        ClassMember::Init(x) => seq![Word::Form(5)] + words_init_decl(x),
        ClassMember::Deinit(x) => seq![Word::Form(6)] + words_deinit_decl(x),
    }
}

pub open spec fn words_field(a: Field) -> Seq<Word>
    decreases a, 0nat,
{
    words_ident(a.name)
        + words_type_expr(a.ty)
        + words_opt_expr(a.default)
        + seq![Word::Flag(a.is_pub)]
        + seq![Word::Flag(a.is_mut)]
        + seq![Word::Flag(a.weak)]
        + seq![Word::Flag(a.unowned)]
        + seq![Word::Place(a.span)]
        + seq![Word::Owner(a.block_id)]
}

pub open spec fn words_param(a: Param) -> Seq<Word>
    decreases a, 0nat,
{
    words_ident(a.name)
        + words_type_expr(a.ty)
        + words_opt_expr(a.default)
        + seq![Word::Flag(a.is_escaping)]
        + seq![Word::Flag(a.is_consuming)]
        + seq![Word::Place(a.span)]
}

pub open spec fn words_block(a: Block) -> Seq<Word>
    decreases a, 0nat,
{
    (seq![Word::Count(a.stmts@.len())] + words_stmts(a.stmts, a.stmts@.len()))
        + words_opt_boxed_expr(a.trailing)
        + seq![Word::Place(a.span)]
}

pub open spec fn words_attribute(a: Attribute) -> Seq<Word>
    decreases a, 0nat,
{
    words_ident(a.name)
        + (seq![Word::Count(a.args@.len())] + words_idents(a.args, a.args@.len()))
        + seq![Word::Place(a.span)]
}

pub open spec fn words_state_field(a: StateField) -> Seq<Word>
    decreases a, 0nat,
{
    words_ident(a.name)
        + words_state_field_kind(a.kind)
        + words_expr(a.init_expr)
        + seq![Word::Place(a.span)]
}

pub open spec fn words_element_members(a: Vec<ElementMember>, n: nat) -> Seq<Word>
    decreases a, n,
{
    if n == 0 || n > a@.len() {
        Seq::empty()
    } else {
        words_element_members(a, (n - 1) as nat) + words_element_member(a[n - 1])
    }
}

pub open spec fn words_style_entries(a: Vec<StyleEntry>, n: nat) -> Seq<Word>
    decreases a, n,
{
    if n == 0 || n > a@.len() {
        Seq::empty()
    } else {
        words_style_entries(a, (n - 1) as nat) + words_style_entry(a[n - 1])
    }
}

pub open spec fn words_use_names(a: Vec<UseName>, n: nat) -> Seq<Word>
    decreases a, n,
{
    if n == 0 || n > a@.len() {
        Seq::empty()
    } else {
        words_use_names(a, (n - 1) as nat) + words_use_name(a[n - 1])
    }
}

pub open spec fn words_type_kind(a: TypeKind) -> Seq<Word>
    decreases a, 0nat,
{
    match a {
        TypeKind::Named { path, args } => seq![Word::Form(0)] + (seq![Word::Count(path@.len())]
            + words_idents(path, path@.len())) + (seq![Word::Count(args@.len())]
            + words_type_exprs(args, args@.len())),
        TypeKind::Nullable(x) => seq![Word::Form(1)] + words_type_expr(*x),
        TypeKind::ErrorUnion(x) => seq![Word::Form(2)] + words_type_expr(*x),
        TypeKind::Fn { params, ret } => seq![Word::Form(3)] + (seq![Word::Count(params@.len())]
            + words_type_exprs(params, params@.len())) + words_type_expr(*ret),
        TypeKind::SelfType => seq![Word::Form(4)],
    }
}

pub open spec fn words_expr_kind(a: ExprKind) -> Seq<Word>
    decreases a, 0nat,
{
    match a {
        ExprKind::Ident(x) => seq![Word::Form(0)] + seq![Word::Text(x@)],
        ExprKind::Path(x) => seq![Word::Form(1)] + (seq![Word::Count(x@.len())] + words_idents(x, x@.len())),
        ExprKind::Call { callee, args, block, type_args } => seq![Word::Form(2)]
            + words_expr(*callee) + (seq![Word::Count(args@.len())]
            + words_exprs(args, args@.len())) + words_opt_boxed_expr(block)
            + (seq![Word::Count(type_args@.len())] + words_type_exprs(type_args, type_args@.len())),
        ExprKind::MethodCall { receiver, method, args, block, type_args } => seq![Word::Form(3)]
            + words_expr(*receiver) + words_ident(method) + (seq![Word::Count(args@.len())]
            + words_exprs(args, args@.len())) + words_opt_boxed_expr(block)
            + (seq![Word::Count(type_args@.len())] + words_type_exprs(type_args, type_args@.len())),
        ExprKind::Member { receiver, name } => seq![Word::Form(4)] + words_expr(*receiver)
            + words_ident(name),
        ExprKind::SafeMember { receiver, name } => seq![Word::Form(5)] + words_expr(*receiver)
            + words_ident(name),
        ExprKind::SafeMethodCall { receiver, method, args, block, type_args } => seq![Word::Form(6)]
            + words_expr(*receiver) + words_ident(method) + (seq![Word::Count(args@.len())]
            + words_exprs(args, args@.len())) + words_opt_boxed_expr(block)
            + (seq![Word::Count(type_args@.len())] + words_type_exprs(type_args, type_args@.len())),
        ExprKind::Index { receiver, index } => seq![Word::Form(7)] + words_expr(*receiver)
            + words_expr(*index),
        ExprKind::Block(x) => seq![Word::Form(8)] + words_block(x),
        ExprKind::Lambda { params, body } => seq![Word::Form(9)] + (seq![Word::Count(params@.len())]
            + words_params(params, params@.len())) + words_block(body),
        ExprKind::Unary { op, expr } => seq![Word::Form(10)] + seq![Word::Unary(op)] + words_expr(*expr),
        ExprKind::Binary { op, lhs, rhs } => seq![Word::Form(11)] + seq![Word::Binary(op)]
            + words_expr(*lhs) + words_expr(*rhs),
        ExprKind::Try(x) => seq![Word::Form(12)] + words_expr(*x),
        ExprKind::Await(x) => seq![Word::Form(13)] + words_expr(*x),
        ExprKind::If { cond, then_b, else_b, let_binding } => seq![Word::Form(14)]
            + words_expr(*cond) + words_block(then_b) + words_opt_block(else_b)
            + words_opt_let_binding(let_binding),
        ExprKind::Case { scrutinee, arms } => seq![Word::Form(15)] + words_expr(*scrutinee)
            + (seq![Word::Count(arms@.len())] + words_case_arms(arms, arms@.len())),
        ExprKind::Kwarg { key, value } => seq![Word::Form(16)] + words_ident(key) + words_expr(*value),
        ExprKind::Element(x) => seq![Word::Form(17)] + words_element(x),
        ExprKind::Array(x) => seq![Word::Form(18)] + (seq![Word::Count(x@.len())] + words_exprs(x, x@.len())),
        ExprKind::MapLit(x) => seq![Word::Form(19)] + (seq![Word::Count(x@.len())]
            + words_map_entries(x, x@.len())),
        ExprKind::Range { start, end, inclusive } => seq![Word::Form(20)] + words_expr(*start)
            + words_expr(*end) + seq![Word::Flag(inclusive)],
        ExprKind::Str(x) => seq![Word::Form(21)] + (seq![Word::Count(x@.len())]
            + words_str_parts(x, x@.len())),
        ExprKind::Int(x) => seq![Word::Form(22)] + seq![Word::Number(x as int)],
        ExprKind::Float(x) => seq![Word::Form(23)] + seq![Word::Text(x@)],
        ExprKind::Bool(x) => seq![Word::Form(24)] + seq![Word::Flag(x)],
        ExprKind::Nil => seq![Word::Form(25)],
        ExprKind::Sym(x) => seq![Word::Form(26)] + seq![Word::Text(x@)],
        ExprKind::AtIdent(x) => seq![Word::Form(27)] + seq![Word::Text(x@)],
        ExprKind::SelfRef => seq![Word::Form(28)],
    }
}

pub open spec fn words_enum_variant(a: EnumVariant) -> Seq<Word>
    decreases a, 0nat,
{
    words_ident(a.name)
        + words_opt_expr(a.value)
        + (seq![Word::Count(a.fields@.len())] + words_fields(a.fields, a.fields@.len()))
        + seq![Word::Flag(a.is_pub)]
        + seq![Word::Place(a.span)]
}

pub open spec fn words_property_decl(a: PropertyDecl) -> Seq<Word>
    decreases a, 0nat,
{
    words_ident(a.name)
        + words_type_expr(a.ty)
        + words_opt_ident(a.notify)
        + words_opt_expr(a.default)
        + seq![Word::Flag(a.is_pub)]
        + seq![Word::Flag(a.bindable)]
        + words_opt_expr(a.binding)
        + words_opt_expr(a.fresh)
        + seq![Word::Flag(a.model)]
        + seq![Word::Flag(a.constant)]
        + seq![Word::Place(a.span)]
        + seq![Word::Owner(a.block_id)]
}

pub open spec fn words_signal_decl(a: SignalDecl) -> Seq<Word>
    decreases a, 0nat,
{
    words_ident(a.name)
        + (seq![Word::Count(a.params@.len())] + words_params(a.params, a.params@.len()))
        + seq![Word::Flag(a.is_pub)]
        + seq![Word::Place(a.span)]
}

pub open spec fn words_init_decl(a: InitDecl) -> Seq<Word>
    decreases a, 0nat,
{
    (seq![Word::Count(a.params@.len())] + words_params(a.params, a.params@.len()))
        + words_block(a.body)
        + seq![Word::Place(a.span)]
}

pub open spec fn words_deinit_decl(a: DeinitDecl) -> Seq<Word>
    decreases a, 0nat,
{
    words_block(a.body)
        + seq![Word::Place(a.span)]
}

pub open spec fn words_opt_expr(a: Option<Expr>) -> Seq<Word>
    decreases a, 0nat,
{
    match a {
        Some(x) => seq![Word::Flag(true)] + words_expr(x),
        None => seq![Word::Flag(false)],
    }
}

pub open spec fn words_stmts(a: Vec<Stmt>, n: nat) -> Seq<Word>
    decreases a, n,
{
    if n == 0 || n > a@.len() {
        Seq::empty()
    } else {
        words_stmts(a, (n - 1) as nat) + words_stmt(a[n - 1])
    }
}

pub open spec fn words_opt_boxed_expr(a: Option<Box<Expr>>) -> Seq<Word>
    decreases a, 0nat,
{
    match a {
        Some(x) => seq![Word::Flag(true)] + words_expr(*x),
        None => seq![Word::Flag(false)],
    }
}

pub open spec fn words_state_field_kind(a: StateFieldKind) -> Seq<Word>
    decreases a, 0nat,
{
    match a {
        StateFieldKind::Property { ty } => seq![Word::Form(0)] + words_type_expr(ty),
        StateFieldKind::Object => seq![Word::Form(1)],
    }
}

pub open spec fn words_element_member(a: ElementMember) -> Seq<Word>
    decreases a, 0nat,
{
    match a {
        ElementMember::Property { key, value, span } => seq![Word::Form(0)] + seq![Word::Text(key@)]
            + words_expr(value) + seq![Word::Place(span)],
        ElementMember::Child(x) => seq![Word::Form(1)] + words_element(x),
        ElementMember::Stmt(x) => seq![Word::Form(2)] + words_stmt(x),
    }
}

pub open spec fn words_style_entry(a: StyleEntry) -> Seq<Word>
    decreases a, 0nat,
{
    seq![Word::Text(a.key@)]
        + words_expr(a.value)
        + seq![Word::Place(a.span)]
}

pub open spec fn words_use_name(a: UseName) -> Seq<Word>
    decreases a, 0nat,
{
    words_ident(a.name)
        + words_opt_ident(a.alias)
}

pub open spec fn words_type_exprs(a: Vec<TypeExpr>, n: nat) -> Seq<Word>
    decreases a, n,
{
    if n == 0 || n > a@.len() {
        Seq::empty()
    } else {
        words_type_exprs(a, (n - 1) as nat) + words_type_expr(a[n - 1])
    }
}

pub open spec fn words_exprs(a: Vec<Expr>, n: nat) -> Seq<Word>
    decreases a, n,
{
    if n == 0 || n > a@.len() {
        Seq::empty()
    } else {
        words_exprs(a, (n - 1) as nat) + words_expr(a[n - 1])
    }
}

pub open spec fn words_opt_let_binding(a: Option<LetBinding>) -> Seq<Word>
    decreases a, 0nat,
{
    match a {
        Some(x) => seq![Word::Flag(true)] + words_let_binding(x),
        None => seq![Word::Flag(false)],
    }
}

pub open spec fn words_case_arms(a: Vec<CaseArm>, n: nat) -> Seq<Word>
    decreases a, n,
{
    if n == 0 || n > a@.len() {
        Seq::empty()
    } else {
        words_case_arms(a, (n - 1) as nat) + words_case_arm(a[n - 1])
    }
}

pub open spec fn words_map_entries(a: Vec<MapEntry>, n: nat) -> Seq<Word>
    decreases a, n,
{
    if n == 0 || n > a@.len() {
        Seq::empty()
    } else {
        words_map_entries(a, (n - 1) as nat) + words_map_entry(a[n - 1])
    }
}

pub open spec fn words_str_parts(a: Vec<StrPart>, n: nat) -> Seq<Word>
    decreases a, n,
{
    if n == 0 || n > a@.len() {
        Seq::empty()
    } else {
        words_str_parts(a, (n - 1) as nat) + words_str_part(a[n - 1])
    }
}

pub open spec fn words_stmt(a: Stmt) -> Seq<Word>
    decreases a, 0nat,
{
    match a {
        Stmt::Let { name, ty, value, span, block_id } => seq![Word::Form(0)] + words_ident(name)
            + words_opt_type_expr(ty) + words_expr(value) + seq![Word::Place(span)]
            + seq![Word::Owner(block_id)],
        Stmt::Var { name, ty, value, span, block_id } => seq![Word::Form(1)] + words_ident(name)
            + words_opt_type_expr(ty) + words_expr(value) + seq![Word::Place(span)]
            + seq![Word::Owner(block_id)],
        Stmt::Expr(x) => seq![Word::Form(2)] + words_expr(x),
        Stmt::Return { value, span } => seq![Word::Form(3)] + words_opt_expr(value) + seq![Word::Place(span)],
        Stmt::Emit { signal, args, span } => seq![Word::Form(4)] + words_ident(signal)
            + (seq![Word::Count(args@.len())] + words_exprs(args, args@.len()))
            + seq![Word::Place(span)],
        Stmt::Assign { target, op, value, span } => seq![Word::Form(5)] + words_expr(target)
            + seq![Word::Assign(op)] + words_expr(value) + seq![Word::Place(span)],
        Stmt::For { binding, iter, body, span } => seq![Word::Form(6)] + words_ident(binding)
            + words_expr(iter) + words_block(body) + seq![Word::Place(span)],
        Stmt::While { cond, body, span } => seq![Word::Form(7)] + words_expr(cond)
            + words_block(body) + seq![Word::Place(span)],
        Stmt::Break { span } => seq![Word::Form(8)] + seq![Word::Place(span)],
        Stmt::Continue { span } => seq![Word::Form(9)] + seq![Word::Place(span)],
        Stmt::Batch { body, span } => seq![Word::Form(10)] + words_block(body) + seq![Word::Place(span)],
    }
}

pub open spec fn words_let_binding(a: LetBinding) -> Seq<Word>
    decreases a, 0nat,
{
    words_pattern(a.pattern)
        + words_expr(*a.value)
}

pub open spec fn words_case_arm(a: CaseArm) -> Seq<Word>
    decreases a, 0nat,
{
    words_pattern(a.pattern)
        + words_block(a.body)
        + seq![Word::Place(a.span)]
}

pub open spec fn words_map_entry(a: MapEntry) -> Seq<Word>
    decreases a, 0nat,
{
    words_expr(a.key)
        + words_expr(a.value)
}

pub open spec fn words_str_part(a: StrPart) -> Seq<Word>
    decreases a, 0nat,
{
    match a {
        StrPart::Text(x) => seq![Word::Form(0)] + seq![Word::Text(x@)],
        StrPart::Interp(x) => seq![Word::Form(1)] + words_expr(*x),
        StrPart::InterpFmt { expr, format_spec } => seq![Word::Form(2)] + words_expr(*expr)
            + seq![Word::Text(format_spec@)],
    }
}

pub open spec fn words_pattern(a: Pattern) -> Seq<Word>
    decreases a, 0nat,
{
    match a {
        Pattern::Ctor { name, args, span } => seq![Word::Form(0)] + words_ident(name)
            + (seq![Word::Count(args@.len())] + words_patterns(args, args@.len()))
            + seq![Word::Place(span)],
        Pattern::Literal { value, span } => seq![Word::Form(1)] + words_expr(*value)
            + seq![Word::Place(span)],
        Pattern::Wild { span } => seq![Word::Form(2)] + seq![Word::Place(span)],
        Pattern::Bind { name, span } => seq![Word::Form(3)] + words_ident(name) + seq![Word::Place(span)],
    }
}

pub open spec fn words_patterns(a: Vec<Pattern>, n: nat) -> Seq<Word>
    decreases a, n,
{
    if n == 0 || n > a@.len() {
        Seq::empty()
    } else {
        words_patterns(a, (n - 1) as nat) + words_pattern(a[n - 1])
    }
}

// ---- copies ------------------------------------------------------------------------

proof fn lemma_module(a: Module, b: Module)
    requires
        same_module(a, b),
    ensures
        words_module(a) == words_module(b),
    decreases a, 0nat,
{
    lemma_items(a.items, b.items, a.items@.len());
}

proof fn lemma_items(a: Vec<Item>, b: Vec<Item>, n: nat)
    requires
        same_items(a, b),
        n <= a@.len(),
    ensures
        words_items(a, n) == words_items(b, n),
    decreases a, n,
{
    if n > 0 {
        lemma_items(a, b, (n - 1) as nat);
        assert(decreases_to!(a => a[n - 1]));
        assert(same_item(a[n - 1], b[n - 1]));
        lemma_item(a[n - 1], b[n - 1]);
    }
}

proof fn lemma_item(a: Item, b: Item)
    requires
        same_item(a, b),
    ensures
        words_item(a) == words_item(b),
    decreases a, 0nat,
{
    match a {
        Item::Class(x) => {
            if let Item::Class(y) = b {
                lemma_class_decl(x, y);
            }
        },
        Item::Struct(x) => {
            if let Item::Struct(y) = b {
                lemma_struct_decl(x, y);
            }
        },
        Item::Fn(x) => {
            if let Item::Fn(y) = b {
                lemma_fn_decl(x, y);
            }
        },
        Item::View(x) => {
            if let Item::View(y) = b {
                lemma_view_decl(x, y);
            }
        },
        Item::Widget(x) => {
            if let Item::Widget(y) = b {
                lemma_widget_decl(x, y);
            }
        },
        Item::Style(x) => {
            if let Item::Style(y) = b {
                lemma_style_decl(x, y);
            }
        },
        Item::Use(x) => {
            if let Item::Use(y) = b {
                lemma_use_decl(x, y);
            }
        },
        Item::UseQml(x) => {
            if let Item::UseQml(y) = b {
                lemma_use_qml(x, y);
            }
        },
        Item::Trait(x) => {
            if let Item::Trait(y) = b {
                lemma_trait_decl(x, y);
            }
        },
        Item::Impl(x) => {
            if let Item::Impl(y) = b {
                lemma_impl_decl(x, y);
            }
        },
        Item::Let(x) => {
            if let Item::Let(y) = b {
                lemma_let_decl(x, y);
            }
        },
        Item::Enum(x) => {
            if let Item::Enum(y) = b {
                lemma_enum_decl(x, y);
            }
        },
        Item::Flags(x) => {
            if let Item::Flags(y) = b {
                lemma_flags_decl(x, y);
            }
        },
        Item::Store(x) => {
            if let Item::Store(y) = b {
                lemma_store_decl(x, y);
            }
        },
        Item::Suite(x) => {
            if let Item::Suite(y) = b {
                lemma_suite_decl(x, y);
            }
        },
    }
}

proof fn lemma_class_decl(a: ClassDecl, b: ClassDecl)
    requires
        same_class_decl(a, b),
    ensures
        words_class_decl(a) == words_class_decl(b),
    decreases a, 0nat,
{
    lemma_ident(a.name, b.name);
    lemma_generic_params(a.generics, b.generics, a.generics@.len());
    lemma_opt_type_expr(a.super_class, b.super_class);
    lemma_class_members(a.members, b.members, a.members@.len());
}

proof fn lemma_struct_decl(a: StructDecl, b: StructDecl)
    requires
        same_struct_decl(a, b),
    ensures
        words_struct_decl(a) == words_struct_decl(b),
    decreases a, 0nat,
{
    lemma_ident(a.name, b.name);
    lemma_fields(a.fields, b.fields, a.fields@.len());
    lemma_fn_decls(a.methods, b.methods, a.methods@.len());
}

proof fn lemma_fn_decl(a: FnDecl, b: FnDecl)
    requires
        same_fn_decl(a, b),
    ensures
        words_fn_decl(a) == words_fn_decl(b),
    decreases a, 0nat,
{
    lemma_ident(a.name, b.name);
    lemma_generic_params(a.generics, b.generics, a.generics@.len());
    lemma_params(a.params, b.params, a.params@.len());
    lemma_opt_type_expr(a.return_ty, b.return_ty);
    lemma_opt_block(a.body, b.body);
    lemma_attributes(a.attributes, b.attributes, a.attributes@.len());
}

proof fn lemma_view_decl(a: ViewDecl, b: ViewDecl)
    requires
        same_view_decl(a, b),
    ensures
        words_view_decl(a) == words_view_decl(b),
    decreases a, 0nat,
{
    lemma_ident(a.name, b.name);
    lemma_params(a.params, b.params, a.params@.len());
    lemma_state_fields(a.state_fields, b.state_fields, a.state_fields@.len());
    lemma_element(a.root, b.root);
}

proof fn lemma_widget_decl(a: WidgetDecl, b: WidgetDecl)
    requires
        same_widget_decl(a, b),
    ensures
        words_widget_decl(a) == words_widget_decl(b),
    decreases a, 0nat,
{
    lemma_ident(a.name, b.name);
    lemma_params(a.params, b.params, a.params@.len());
    lemma_state_fields(a.state_fields, b.state_fields, a.state_fields@.len());
    lemma_element(a.root, b.root);
}

proof fn lemma_style_decl(a: StyleDecl, b: StyleDecl)
    requires
        same_style_decl(a, b),
    ensures
        words_style_decl(a) == words_style_decl(b),
    decreases a, 0nat,
{
    lemma_ident(a.name, b.name);
    lemma_style_body(a.body, b.body);
}

proof fn lemma_use_decl(a: UseDecl, b: UseDecl)
    requires
        same_use_decl(a, b),
    ensures
        words_use_decl(a) == words_use_decl(b),
    decreases a, 0nat,
{
    lemma_idents(a.path, b.path, a.path@.len());
    lemma_use_kind(a.kind, b.kind);
}

proof fn lemma_use_qml(a: UseQml, b: UseQml)
    requires
        same_use_qml(a, b),
    ensures
        words_use_qml(a) == words_use_qml(b),
    decreases a, 0nat,
{
    lemma_opt_ident(a.alias, b.alias);
}

proof fn lemma_trait_decl(a: TraitDecl, b: TraitDecl)
    requires
        same_trait_decl(a, b),
    ensures
        words_trait_decl(a) == words_trait_decl(b),
    decreases a, 0nat,
{
    lemma_ident(a.name, b.name);
    lemma_generic_params(a.generics, b.generics, a.generics@.len());
    lemma_fn_decls(a.methods, b.methods, a.methods@.len());
}

proof fn lemma_impl_decl(a: ImplDecl, b: ImplDecl)
    requires
        same_impl_decl(a, b),
    ensures
        words_impl_decl(a) == words_impl_decl(b),
    decreases a, 0nat,
{
    lemma_ident(a.trait_name, b.trait_name);
    lemma_type_expr(a.for_type, b.for_type);
    lemma_fn_decls(a.methods, b.methods, a.methods@.len());
}

proof fn lemma_let_decl(a: LetDecl, b: LetDecl)
    requires
        same_let_decl(a, b),
    ensures
        words_let_decl(a) == words_let_decl(b),
    decreases a, 0nat,
{
    lemma_ident(a.name, b.name);
    lemma_type_expr(a.ty, b.ty);
    lemma_expr(a.value, b.value);
}

proof fn lemma_enum_decl(a: EnumDecl, b: EnumDecl)
    requires
        same_enum_decl(a, b),
    ensures
        words_enum_decl(a) == words_enum_decl(b),
    decreases a, 0nat,
{
    lemma_ident(a.name, b.name);
    lemma_enum_variants(a.variants, b.variants, a.variants@.len());
}

proof fn lemma_flags_decl(a: FlagsDecl, b: FlagsDecl)
    requires
        same_flags_decl(a, b),
    ensures
        words_flags_decl(a) == words_flags_decl(b),
    decreases a, 0nat,
{
    lemma_ident(a.name, b.name);
    lemma_ident(a.of, b.of);
}

proof fn lemma_store_decl(a: StoreDecl, b: StoreDecl)
    requires
        same_store_decl(a, b),
    ensures
        words_store_decl(a) == words_store_decl(b),
    decreases a, 0nat,
{
    lemma_ident(a.name, b.name);
    lemma_state_fields(a.state_fields, b.state_fields, a.state_fields@.len());
    lemma_class_members(a.members, b.members, a.members@.len());
}

proof fn lemma_suite_decl(a: SuiteDecl, b: SuiteDecl)
    requires
        same_suite_decl(a, b),
    ensures
        words_suite_decl(a) == words_suite_decl(b),
    decreases a, 0nat,
{
    lemma_fn_decls(a.tests, b.tests, a.tests@.len());
}

pub(crate) proof fn lemma_ident(a: Ident, b: Ident)
    requires
        same_ident(a, b),
    ensures
        words_ident(a) == words_ident(b),
    decreases a, 0nat,
{
}

proof fn lemma_generic_params(a: Vec<GenericParam>, b: Vec<GenericParam>, n: nat)
    requires
        same_generic_params(a, b),
        n <= a@.len(),
    ensures
        words_generic_params(a, n) == words_generic_params(b, n),
    decreases a, n,
{
    if n > 0 {
        lemma_generic_params(a, b, (n - 1) as nat);
        assert(decreases_to!(a => a[n - 1]));
        assert(same_generic_param(a[n - 1], b[n - 1]));
        lemma_generic_param(a[n - 1], b[n - 1]);
    }
}

pub(crate) proof fn lemma_opt_type_expr(a: Option<TypeExpr>, b: Option<TypeExpr>)
    requires
        same_opt_type_expr(a, b),
    ensures
        words_opt_type_expr(a) == words_opt_type_expr(b),
    decreases a, 0nat,
{
    if let Some(x) = a {
        lemma_type_expr(x, b->0);
    }
}

proof fn lemma_class_members(a: Vec<ClassMember>, b: Vec<ClassMember>, n: nat)
    requires
        same_class_members(a, b),
        n <= a@.len(),
    ensures
        words_class_members(a, n) == words_class_members(b, n),
    decreases a, n,
{
    if n > 0 {
        lemma_class_members(a, b, (n - 1) as nat);
        assert(decreases_to!(a => a[n - 1]));
        assert(same_class_member(a[n - 1], b[n - 1]));
        lemma_class_member(a[n - 1], b[n - 1]);
    }
}

proof fn lemma_fields(a: Vec<Field>, b: Vec<Field>, n: nat)
    requires
        same_fields(a, b),
        n <= a@.len(),
    ensures
        words_fields(a, n) == words_fields(b, n),
    decreases a, n,
{
    if n > 0 {
        lemma_fields(a, b, (n - 1) as nat);
        assert(decreases_to!(a => a[n - 1]));
        assert(same_field(a[n - 1], b[n - 1]));
        lemma_field(a[n - 1], b[n - 1]);
    }
}

proof fn lemma_fn_decls(a: Vec<FnDecl>, b: Vec<FnDecl>, n: nat)
    requires
        same_fn_decls(a, b),
        n <= a@.len(),
    ensures
        words_fn_decls(a, n) == words_fn_decls(b, n),
    decreases a, n,
{
    if n > 0 {
        lemma_fn_decls(a, b, (n - 1) as nat);
        assert(decreases_to!(a => a[n - 1]));
        assert(same_fn_decl(a[n - 1], b[n - 1]));
        lemma_fn_decl(a[n - 1], b[n - 1]);
    }
}

pub(crate) proof fn lemma_params(a: Vec<Param>, b: Vec<Param>, n: nat)
    requires
        same_params(a, b),
        n <= a@.len(),
    ensures
        words_params(a, n) == words_params(b, n),
    decreases a, n,
{
    if n > 0 {
        lemma_params(a, b, (n - 1) as nat);
        assert(decreases_to!(a => a[n - 1]));
        assert(same_param(a[n - 1], b[n - 1]));
        lemma_param(a[n - 1], b[n - 1]);
    }
}

proof fn lemma_opt_block(a: Option<Block>, b: Option<Block>)
    requires
        same_opt_block(a, b),
    ensures
        words_opt_block(a) == words_opt_block(b),
    decreases a, 0nat,
{
    if let Some(x) = a {
        lemma_block(x, b->0);
    }
}

proof fn lemma_attributes(a: Vec<Attribute>, b: Vec<Attribute>, n: nat)
    requires
        same_attributes(a, b),
        n <= a@.len(),
    ensures
        words_attributes(a, n) == words_attributes(b, n),
    decreases a, n,
{
    if n > 0 {
        lemma_attributes(a, b, (n - 1) as nat);
        assert(decreases_to!(a => a[n - 1]));
        assert(same_attribute(a[n - 1], b[n - 1]));
        lemma_attribute(a[n - 1], b[n - 1]);
    }
}

pub(crate) proof fn lemma_state_fields(a: Vec<StateField>, b: Vec<StateField>, n: nat)
    requires
        same_state_fields(a, b),
        n <= a@.len(),
    ensures
        words_state_fields(a, n) == words_state_fields(b, n),
    decreases a, n,
{
    if n > 0 {
        lemma_state_fields(a, b, (n - 1) as nat);
        assert(decreases_to!(a => a[n - 1]));
        assert(same_state_field(a[n - 1], b[n - 1]));
        lemma_state_field(a[n - 1], b[n - 1]);
    }
}

proof fn lemma_element(a: Element, b: Element)
    requires
        same_element(a, b),
    ensures
        words_element(a) == words_element(b),
    decreases a, 0nat,
{
    lemma_idents(a.path, b.path, a.path@.len());
    lemma_ident(a.name, b.name);
    lemma_element_members(a.members, b.members, a.members@.len());
}

proof fn lemma_style_body(a: StyleBody, b: StyleBody)
    requires
        same_style_body(a, b),
    ensures
        words_style_body(a) == words_style_body(b),
    decreases a, 0nat,
{
    match a {
        StyleBody::Lit(x) => {
            if let StyleBody::Lit(y) = b {
                lemma_style_entries(x, y, x@.len());
            }
        },
        StyleBody::Alias(x) => {
            if let StyleBody::Alias(y) = b {
                lemma_expr(x, y);
            }
        },
    }
}

pub(crate) proof fn lemma_idents(a: Vec<Ident>, b: Vec<Ident>, n: nat)
    requires
        same_idents(a, b),
        n <= a@.len(),
    ensures
        words_idents(a, n) == words_idents(b, n),
    decreases a, n,
{
    if n > 0 {
        lemma_idents(a, b, (n - 1) as nat);
        assert(decreases_to!(a => a[n - 1]));
        assert(same_ident(a[n - 1], b[n - 1]));
        lemma_ident(a[n - 1], b[n - 1]);
    }
}

proof fn lemma_use_kind(a: UseKind, b: UseKind)
    requires
        same_use_kind(a, b),
    ensures
        words_use_kind(a) == words_use_kind(b),
    decreases a, 0nat,
{
    match a {
        UseKind::Module(x) => {
            if let UseKind::Module(y) = b {
                lemma_opt_ident(x, y);
            }
        },
        UseKind::Names(x) => {
            if let UseKind::Names(y) = b {
                lemma_use_names(x, y, x@.len());
            }
        },
    }
}

proof fn lemma_opt_ident(a: Option<Ident>, b: Option<Ident>)
    requires
        same_opt_ident(a, b),
    ensures
        words_opt_ident(a) == words_opt_ident(b),
    decreases a, 0nat,
{
    if let Some(x) = a {
        lemma_ident(x, b->0);
    }
}

pub(crate) proof fn lemma_type_expr(a: TypeExpr, b: TypeExpr)
    requires
        same_type_expr(a, b),
    ensures
        words_type_expr(a) == words_type_expr(b),
    decreases a, 0nat,
{
    lemma_type_kind(a.kind, b.kind);
}

proof fn lemma_expr(a: Expr, b: Expr)
    requires
        same_expr(a, b),
    ensures
        words_expr(a) == words_expr(b),
    decreases a, 0nat,
{
    lemma_expr_kind(a.kind, b.kind);
}

proof fn lemma_enum_variants(a: Vec<EnumVariant>, b: Vec<EnumVariant>, n: nat)
    requires
        same_enum_variants(a, b),
        n <= a@.len(),
    ensures
        words_enum_variants(a, n) == words_enum_variants(b, n),
    decreases a, n,
{
    if n > 0 {
        lemma_enum_variants(a, b, (n - 1) as nat);
        assert(decreases_to!(a => a[n - 1]));
        assert(same_enum_variant(a[n - 1], b[n - 1]));
        lemma_enum_variant(a[n - 1], b[n - 1]);
    }
}

proof fn lemma_generic_param(a: GenericParam, b: GenericParam)
    requires
        same_generic_param(a, b),
    ensures
        words_generic_param(a) == words_generic_param(b),
    decreases a, 0nat,
{
    lemma_ident(a.name, b.name);
    lemma_idents(a.bounds, b.bounds, a.bounds@.len());
}

proof fn lemma_class_member(a: ClassMember, b: ClassMember)
    requires
        same_class_member(a, b),
    ensures
        words_class_member(a) == words_class_member(b),
    decreases a, 0nat,
{
    match a {
        ClassMember::Property(x) => {
            if let ClassMember::Property(y) = b {
                lemma_property_decl(x, y);
            }
        },
        ClassMember::Signal(x) => {
            if let ClassMember::Signal(y) = b {
                lemma_signal_decl(x, y);
            }
        },
        ClassMember::Fn(x) => {
            if let ClassMember::Fn(y) = b {
                lemma_fn_decl(x, y);
            }
        },
        ClassMember::Slot(x) => {
            if let ClassMember::Slot(y) = b {
                lemma_fn_decl(x, y);
            }
        },
        ClassMember::Field(x) => {
            if let ClassMember::Field(y) = b {
                lemma_field(x, y);
            }
        },
        ClassMember::Init(x) => {
            if let ClassMember::Init(y) = b {
                lemma_init_decl(x, y);
            }
        },
        ClassMember::Deinit(x) => {
            if let ClassMember::Deinit(y) = b {
                lemma_deinit_decl(x, y);
            }
        },
    }
}

proof fn lemma_field(a: Field, b: Field)
    requires
        same_field(a, b),
    ensures
        words_field(a) == words_field(b),
    decreases a, 0nat,
{
    lemma_ident(a.name, b.name);
    lemma_type_expr(a.ty, b.ty);
    lemma_opt_expr(a.default, b.default);
}

proof fn lemma_param(a: Param, b: Param)
    requires
        same_param(a, b),
    ensures
        words_param(a) == words_param(b),
    decreases a, 0nat,
{
    lemma_ident(a.name, b.name);
    lemma_type_expr(a.ty, b.ty);
    lemma_opt_expr(a.default, b.default);
}

proof fn lemma_block(a: Block, b: Block)
    requires
        same_block(a, b),
    ensures
        words_block(a) == words_block(b),
    decreases a, 0nat,
{
    lemma_stmts(a.stmts, b.stmts, a.stmts@.len());
    lemma_opt_boxed_expr(a.trailing, b.trailing);
}

proof fn lemma_attribute(a: Attribute, b: Attribute)
    requires
        same_attribute(a, b),
    ensures
        words_attribute(a) == words_attribute(b),
    decreases a, 0nat,
{
    lemma_ident(a.name, b.name);
    lemma_idents(a.args, b.args, a.args@.len());
}

proof fn lemma_state_field(a: StateField, b: StateField)
    requires
        same_state_field(a, b),
    ensures
        words_state_field(a) == words_state_field(b),
    decreases a, 0nat,
{
    lemma_ident(a.name, b.name);
    lemma_state_field_kind(a.kind, b.kind);
    lemma_expr(a.init_expr, b.init_expr);
}

proof fn lemma_element_members(a: Vec<ElementMember>, b: Vec<ElementMember>, n: nat)
    requires
        same_element_members(a, b),
        n <= a@.len(),
    ensures
        words_element_members(a, n) == words_element_members(b, n),
    decreases a, n,
{
    if n > 0 {
        lemma_element_members(a, b, (n - 1) as nat);
        assert(decreases_to!(a => a[n - 1]));
        assert(same_element_member(a[n - 1], b[n - 1]));
        lemma_element_member(a[n - 1], b[n - 1]);
    }
}

proof fn lemma_style_entries(a: Vec<StyleEntry>, b: Vec<StyleEntry>, n: nat)
    requires
        same_style_entries(a, b),
        n <= a@.len(),
    ensures
        words_style_entries(a, n) == words_style_entries(b, n),
    decreases a, n,
{
    if n > 0 {
        lemma_style_entries(a, b, (n - 1) as nat);
        assert(decreases_to!(a => a[n - 1]));
        assert(same_style_entry(a[n - 1], b[n - 1]));
        lemma_style_entry(a[n - 1], b[n - 1]);
    }
}

proof fn lemma_use_names(a: Vec<UseName>, b: Vec<UseName>, n: nat)
    requires
        same_use_names(a, b),
        n <= a@.len(),
    ensures
        words_use_names(a, n) == words_use_names(b, n),
    decreases a, n,
{
    if n > 0 {
        lemma_use_names(a, b, (n - 1) as nat);
        assert(decreases_to!(a => a[n - 1]));
        assert(same_use_name(a[n - 1], b[n - 1]));
        lemma_use_name(a[n - 1], b[n - 1]);
    }
}

proof fn lemma_type_kind(a: TypeKind, b: TypeKind)
    requires
        same_type_kind(a, b),
    ensures
        words_type_kind(a) == words_type_kind(b),
    decreases a, 0nat,
{
    match a {
        TypeKind::Named { path, args } => {
            if let TypeKind::Named { path: path2, args: args2 } = b {
                lemma_idents(path, path2, path@.len());
                lemma_type_exprs(args, args2, args@.len());
            }
        },
        TypeKind::Nullable(x) => {
            if let TypeKind::Nullable(y) = b {
                lemma_type_expr(*x, *y);
            }
        },
        TypeKind::ErrorUnion(x) => {
            if let TypeKind::ErrorUnion(y) = b {
                lemma_type_expr(*x, *y);
            }
        },
        TypeKind::Fn { params, ret } => {
            if let TypeKind::Fn { params: params2, ret: ret2 } = b {
                lemma_type_exprs(params, params2, params@.len());
                lemma_type_expr(*ret, *ret2);
            }
        },
        _ => {},
    }
}

proof fn lemma_expr_kind(a: ExprKind, b: ExprKind)
    requires
        same_expr_kind(a, b),
    ensures
        words_expr_kind(a) == words_expr_kind(b),
    decreases a, 0nat,
{
    match a {
        ExprKind::Path(x) => {
            if let ExprKind::Path(y) = b {
                lemma_idents(x, y, x@.len());
            }
        },
        ExprKind::Call { callee, args, block, type_args } => {
            if let ExprKind::Call { callee: callee2, args: args2, block: block2, type_args: type_args2 } = b {
                lemma_expr(*callee, *callee2);
                lemma_exprs(args, args2, args@.len());
                lemma_opt_boxed_expr(block, block2);
                lemma_type_exprs(type_args, type_args2, type_args@.len());
            }
        },
        ExprKind::MethodCall { receiver, method, args, block, type_args } => {
            if let ExprKind::MethodCall { receiver: receiver2, method: method2, args: args2, block: block2, type_args: type_args2 } = b {
                lemma_expr(*receiver, *receiver2);
                lemma_ident(method, method2);
                lemma_exprs(args, args2, args@.len());
                lemma_opt_boxed_expr(block, block2);
                lemma_type_exprs(type_args, type_args2, type_args@.len());
            }
        },
        ExprKind::Member { receiver, name } => {
            if let ExprKind::Member { receiver: receiver2, name: name2 } = b {
                lemma_expr(*receiver, *receiver2);
                lemma_ident(name, name2);
            }
        },
        ExprKind::SafeMember { receiver, name } => {
            if let ExprKind::SafeMember { receiver: receiver2, name: name2 } = b {
                lemma_expr(*receiver, *receiver2);
                lemma_ident(name, name2);
            }
        },
        ExprKind::SafeMethodCall { receiver, method, args, block, type_args } => {
            if let ExprKind::SafeMethodCall { receiver: receiver2, method: method2, args: args2, block: block2, type_args: type_args2 } = b {
                lemma_expr(*receiver, *receiver2);
                lemma_ident(method, method2);
                lemma_exprs(args, args2, args@.len());
                lemma_opt_boxed_expr(block, block2);
                lemma_type_exprs(type_args, type_args2, type_args@.len());
            }
        },
        ExprKind::Index { receiver, index } => {
            if let ExprKind::Index { receiver: receiver2, index: index2 } = b {
                lemma_expr(*receiver, *receiver2);
                lemma_expr(*index, *index2);
            }
        },
        ExprKind::Block(x) => {
            if let ExprKind::Block(y) = b {
                lemma_block(x, y);
            }
        },
        ExprKind::Lambda { params, body } => {
            if let ExprKind::Lambda { params: params2, body: body2 } = b {
                lemma_params(params, params2, params@.len());
                lemma_block(body, body2);
            }
        },
        ExprKind::Unary { expr, .. } => {
            if let ExprKind::Unary { expr: expr2, .. } = b {
                lemma_expr(*expr, *expr2);
            }
        },
        ExprKind::Binary { lhs, rhs, .. } => {
            if let ExprKind::Binary { lhs: lhs2, rhs: rhs2, .. } = b {
                lemma_expr(*lhs, *lhs2);
                lemma_expr(*rhs, *rhs2);
            }
        },
        ExprKind::Try(x) => {
            if let ExprKind::Try(y) = b {
                lemma_expr(*x, *y);
            }
        },
        ExprKind::Await(x) => {
            if let ExprKind::Await(y) = b {
                lemma_expr(*x, *y);
            }
        },
        ExprKind::If { cond, then_b, else_b, let_binding } => {
            if let ExprKind::If { cond: cond2, then_b: then_b2, else_b: else_b2, let_binding: let_binding2 } = b {
                lemma_expr(*cond, *cond2);
                lemma_block(then_b, then_b2);
                lemma_opt_block(else_b, else_b2);
                lemma_opt_let_binding(let_binding, let_binding2);
            }
        },
        ExprKind::Case { scrutinee, arms } => {
            if let ExprKind::Case { scrutinee: scrutinee2, arms: arms2 } = b {
                lemma_expr(*scrutinee, *scrutinee2);
                lemma_case_arms(arms, arms2, arms@.len());
            }
        },
        ExprKind::Kwarg { key, value } => {
            if let ExprKind::Kwarg { key: key2, value: value2 } = b {
                lemma_ident(key, key2);
                lemma_expr(*value, *value2);
            }
        },
        ExprKind::Element(x) => {
            if let ExprKind::Element(y) = b {
                lemma_element(x, y);
            }
        },
        ExprKind::Array(x) => {
            if let ExprKind::Array(y) = b {
                lemma_exprs(x, y, x@.len());
            }
        },
        ExprKind::MapLit(x) => {
            if let ExprKind::MapLit(y) = b {
                lemma_map_entries(x, y, x@.len());
            }
        },
        ExprKind::Range { start, end, .. } => {
            if let ExprKind::Range { start: start2, end: end2, .. } = b {
                lemma_expr(*start, *start2);
                lemma_expr(*end, *end2);
            }
        },
        ExprKind::Str(x) => {
            if let ExprKind::Str(y) = b {
                lemma_str_parts(x, y, x@.len());
            }
        },
        _ => {},
    }
}

proof fn lemma_enum_variant(a: EnumVariant, b: EnumVariant)
    requires
        same_enum_variant(a, b),
    ensures
        words_enum_variant(a) == words_enum_variant(b),
    decreases a, 0nat,
{
    lemma_ident(a.name, b.name);
    lemma_opt_expr(a.value, b.value);
    lemma_fields(a.fields, b.fields, a.fields@.len());
}

proof fn lemma_property_decl(a: PropertyDecl, b: PropertyDecl)
    requires
        same_property_decl(a, b),
    ensures
        words_property_decl(a) == words_property_decl(b),
    decreases a, 0nat,
{
    lemma_ident(a.name, b.name);
    lemma_type_expr(a.ty, b.ty);
    lemma_opt_ident(a.notify, b.notify);
    lemma_opt_expr(a.default, b.default);
    lemma_opt_expr(a.binding, b.binding);
    lemma_opt_expr(a.fresh, b.fresh);
}

proof fn lemma_signal_decl(a: SignalDecl, b: SignalDecl)
    requires
        same_signal_decl(a, b),
    ensures
        words_signal_decl(a) == words_signal_decl(b),
    decreases a, 0nat,
{
    lemma_ident(a.name, b.name);
    lemma_params(a.params, b.params, a.params@.len());
}

proof fn lemma_init_decl(a: InitDecl, b: InitDecl)
    requires
        same_init_decl(a, b),
    ensures
        words_init_decl(a) == words_init_decl(b),
    decreases a, 0nat,
{
    lemma_params(a.params, b.params, a.params@.len());
    lemma_block(a.body, b.body);
}

proof fn lemma_deinit_decl(a: DeinitDecl, b: DeinitDecl)
    requires
        same_deinit_decl(a, b),
    ensures
        words_deinit_decl(a) == words_deinit_decl(b),
    decreases a, 0nat,
{
    lemma_block(a.body, b.body);
}

proof fn lemma_opt_expr(a: Option<Expr>, b: Option<Expr>)
    requires
        same_opt_expr(a, b),
    ensures
        words_opt_expr(a) == words_opt_expr(b),
    decreases a, 0nat,
{
    if let Some(x) = a {
        lemma_expr(x, b->0);
    }
}

proof fn lemma_stmts(a: Vec<Stmt>, b: Vec<Stmt>, n: nat)
    requires
        same_stmts(a, b),
        n <= a@.len(),
    ensures
        words_stmts(a, n) == words_stmts(b, n),
    decreases a, n,
{
    if n > 0 {
        lemma_stmts(a, b, (n - 1) as nat);
        assert(decreases_to!(a => a[n - 1]));
        assert(same_stmt(a[n - 1], b[n - 1]));
        lemma_stmt(a[n - 1], b[n - 1]);
    }
}

proof fn lemma_opt_boxed_expr(a: Option<Box<Expr>>, b: Option<Box<Expr>>)
    requires
        same_opt_boxed_expr(a, b),
    ensures
        words_opt_boxed_expr(a) == words_opt_boxed_expr(b),
    decreases a, 0nat,
{
    if let Some(x) = a {
        lemma_expr(*x, *b->0);
    }
}

proof fn lemma_state_field_kind(a: StateFieldKind, b: StateFieldKind)
    requires
        same_state_field_kind(a, b),
    ensures
        words_state_field_kind(a) == words_state_field_kind(b),
    decreases a, 0nat,
{
    match a {
        StateFieldKind::Property { ty } => {
            if let StateFieldKind::Property { ty: ty2 } = b {
                lemma_type_expr(ty, ty2);
            }
        },
        _ => {},
    }
}

proof fn lemma_element_member(a: ElementMember, b: ElementMember)
    requires
        same_element_member(a, b),
    ensures
        words_element_member(a) == words_element_member(b),
    decreases a, 0nat,
{
    match a {
        ElementMember::Property { value, .. } => {
            if let ElementMember::Property { value: value2, .. } = b {
                lemma_expr(value, value2);
            }
        },
        ElementMember::Child(x) => {
            if let ElementMember::Child(y) = b {
                lemma_element(x, y);
            }
        },
        ElementMember::Stmt(x) => {
            if let ElementMember::Stmt(y) = b {
                lemma_stmt(x, y);
            }
        },
    }
}

proof fn lemma_style_entry(a: StyleEntry, b: StyleEntry)
    requires
        same_style_entry(a, b),
    ensures
        words_style_entry(a) == words_style_entry(b),
    decreases a, 0nat,
{
    lemma_expr(a.value, b.value);
}

proof fn lemma_use_name(a: UseName, b: UseName)
    requires
        same_use_name(a, b),
    ensures
        words_use_name(a) == words_use_name(b),
    decreases a, 0nat,
{
    lemma_ident(a.name, b.name);
    lemma_opt_ident(a.alias, b.alias);
}

pub(crate) proof fn lemma_type_exprs(a: Vec<TypeExpr>, b: Vec<TypeExpr>, n: nat)
    requires
        same_type_exprs(a, b),
        n <= a@.len(),
    ensures
        words_type_exprs(a, n) == words_type_exprs(b, n),
    decreases a, n,
{
    if n > 0 {
        lemma_type_exprs(a, b, (n - 1) as nat);
        assert(decreases_to!(a => a[n - 1]));
        assert(same_type_expr(a[n - 1], b[n - 1]));
        lemma_type_expr(a[n - 1], b[n - 1]);
    }
}

proof fn lemma_exprs(a: Vec<Expr>, b: Vec<Expr>, n: nat)
    requires
        same_exprs(a, b),
        n <= a@.len(),
    ensures
        words_exprs(a, n) == words_exprs(b, n),
    decreases a, n,
{
    if n > 0 {
        lemma_exprs(a, b, (n - 1) as nat);
        assert(decreases_to!(a => a[n - 1]));
        assert(same_expr(a[n - 1], b[n - 1]));
        lemma_expr(a[n - 1], b[n - 1]);
    }
}

proof fn lemma_opt_let_binding(a: Option<LetBinding>, b: Option<LetBinding>)
    requires
        same_opt_let_binding(a, b),
    ensures
        words_opt_let_binding(a) == words_opt_let_binding(b),
    decreases a, 0nat,
{
    if let Some(x) = a {
        lemma_let_binding(x, b->0);
    }
}

proof fn lemma_case_arms(a: Vec<CaseArm>, b: Vec<CaseArm>, n: nat)
    requires
        same_case_arms(a, b),
        n <= a@.len(),
    ensures
        words_case_arms(a, n) == words_case_arms(b, n),
    decreases a, n,
{
    if n > 0 {
        lemma_case_arms(a, b, (n - 1) as nat);
        assert(decreases_to!(a => a[n - 1]));
        assert(same_case_arm(a[n - 1], b[n - 1]));
        lemma_case_arm(a[n - 1], b[n - 1]);
    }
}

proof fn lemma_map_entries(a: Vec<MapEntry>, b: Vec<MapEntry>, n: nat)
    requires
        same_map_entries(a, b),
        n <= a@.len(),
    ensures
        words_map_entries(a, n) == words_map_entries(b, n),
    decreases a, n,
{
    if n > 0 {
        lemma_map_entries(a, b, (n - 1) as nat);
        assert(decreases_to!(a => a[n - 1]));
        assert(same_map_entry(a[n - 1], b[n - 1]));
        lemma_map_entry(a[n - 1], b[n - 1]);
    }
}

proof fn lemma_str_parts(a: Vec<StrPart>, b: Vec<StrPart>, n: nat)
    requires
        same_str_parts(a, b),
        n <= a@.len(),
    ensures
        words_str_parts(a, n) == words_str_parts(b, n),
    decreases a, n,
{
    if n > 0 {
        lemma_str_parts(a, b, (n - 1) as nat);
        assert(decreases_to!(a => a[n - 1]));
        assert(same_str_part(a[n - 1], b[n - 1]));
        lemma_str_part(a[n - 1], b[n - 1]);
    }
}

proof fn lemma_stmt(a: Stmt, b: Stmt)
    requires
        same_stmt(a, b),
    ensures
        words_stmt(a) == words_stmt(b),
    decreases a, 0nat,
{
    match a {
        Stmt::Let { name, ty, value, .. } => {
            if let Stmt::Let { name: name2, ty: ty2, value: value2, .. } = b {
                lemma_ident(name, name2);
                lemma_opt_type_expr(ty, ty2);
                lemma_expr(value, value2);
            }
        },
        Stmt::Var { name, ty, value, .. } => {
            if let Stmt::Var { name: name2, ty: ty2, value: value2, .. } = b {
                lemma_ident(name, name2);
                lemma_opt_type_expr(ty, ty2);
                lemma_expr(value, value2);
            }
        },
        Stmt::Expr(x) => {
            if let Stmt::Expr(y) = b {
                lemma_expr(x, y);
            }
        },
        Stmt::Return { value, .. } => {
            if let Stmt::Return { value: value2, .. } = b {
                lemma_opt_expr(value, value2);
            }
        },
        Stmt::Emit { signal, args, .. } => {
            if let Stmt::Emit { signal: signal2, args: args2, .. } = b {
                lemma_ident(signal, signal2);
                lemma_exprs(args, args2, args@.len());
            }
        },
        Stmt::Assign { target, value, .. } => {
            if let Stmt::Assign { target: target2, value: value2, .. } = b {
                lemma_expr(target, target2);
                lemma_expr(value, value2);
            }
        },
        Stmt::For { binding, iter, body, .. } => {
            if let Stmt::For { binding: binding2, iter: iter2, body: body2, .. } = b {
                lemma_ident(binding, binding2);
                lemma_expr(iter, iter2);
                lemma_block(body, body2);
            }
        },
        Stmt::While { cond, body, .. } => {
            if let Stmt::While { cond: cond2, body: body2, .. } = b {
                lemma_expr(cond, cond2);
                lemma_block(body, body2);
            }
        },
        Stmt::Batch { body, .. } => {
            if let Stmt::Batch { body: body2, .. } = b {
                lemma_block(body, body2);
            }
        },
        _ => {},
    }
}

proof fn lemma_let_binding(a: LetBinding, b: LetBinding)
    requires
        same_let_binding(a, b),
    ensures
        words_let_binding(a) == words_let_binding(b),
    decreases a, 0nat,
{
    lemma_pattern(a.pattern, b.pattern);
    lemma_expr(*a.value, *b.value);
}

proof fn lemma_case_arm(a: CaseArm, b: CaseArm)
    requires
        same_case_arm(a, b),
    ensures
        words_case_arm(a) == words_case_arm(b),
    decreases a, 0nat,
{
    lemma_pattern(a.pattern, b.pattern);
    lemma_block(a.body, b.body);
}

proof fn lemma_map_entry(a: MapEntry, b: MapEntry)
    requires
        same_map_entry(a, b),
    ensures
        words_map_entry(a) == words_map_entry(b),
    decreases a, 0nat,
{
    lemma_expr(a.key, b.key);
    lemma_expr(a.value, b.value);
}

proof fn lemma_str_part(a: StrPart, b: StrPart)
    requires
        same_str_part(a, b),
    ensures
        words_str_part(a) == words_str_part(b),
    decreases a, 0nat,
{
    match a {
        StrPart::Interp(x) => {
            if let StrPart::Interp(y) = b {
                lemma_expr(*x, *y);
            }
        },
        StrPart::InterpFmt { expr, .. } => {
            if let StrPart::InterpFmt { expr: expr2, .. } = b {
                lemma_expr(*expr, *expr2);
            }
        },
        _ => {},
    }
}

pub(crate) proof fn lemma_pattern(a: Pattern, b: Pattern)
    requires
        same_pattern(a, b),
    ensures
        words_pattern(a) == words_pattern(b),
    decreases a, 0nat,
{
    match a {
        Pattern::Ctor { name, args, .. } => {
            if let Pattern::Ctor { name: name2, args: args2, .. } = b {
                lemma_ident(name, name2);
                lemma_patterns(args, args2, args@.len());
            }
        },
        Pattern::Literal { value, .. } => {
            if let Pattern::Literal { value: value2, .. } = b {
                lemma_expr(*value, *value2);
            }
        },
        Pattern::Bind { name, .. } => {
            if let Pattern::Bind { name: name2, .. } = b {
                lemma_ident(name, name2);
            }
        },
        _ => {},
    }
}

proof fn lemma_patterns(a: Vec<Pattern>, b: Vec<Pattern>, n: nat)
    requires
        same_patterns(a, b),
        n <= a@.len(),
    ensures
        words_patterns(a, n) == words_patterns(b, n),
    decreases a, n,
{
    if n > 0 {
        lemma_patterns(a, b, (n - 1) as nat);
        assert(decreases_to!(a => a[n - 1]));
        assert(same_pattern(a[n - 1], b[n - 1]));
        lemma_pattern(a[n - 1], b[n - 1]);
    }
}

// ---- laws --------------------------------------------------------------------------

/// A copy of a module holds all that the module holds: each form, name, literal,
/// operator, flag and place, in the same order.
pub proof fn law_copies_hold_all_words(a: Module, b: Module)
    requires
        same_module(a, b),
    ensures
        words_module(a) == words_module(b),
{
    lemma_module(a, b);
}

/// A copy of an item holds all that the item holds.
pub proof fn law_copied_items_hold_all_words(a: Item, b: Item)
    requires
        same_item(a, b),
    ensures
        words_item(a) == words_item(b),
{
    lemma_item(a, b);
}

/// A copy of an expression holds all that the expression holds.
pub proof fn law_copied_expressions_hold_all_words(a: Expr, b: Expr)
    requires
        same_expr(a, b),
    ensures
        words_expr(a) == words_expr(b),
{
    lemma_expr(a, b);
}

/// A copy of a type holds all that the type holds.
pub proof fn law_copied_types_hold_all_words(a: TypeExpr, b: TypeExpr)
    requires
        same_type_expr(a, b),
    ensures
        words_type_expr(a) == words_type_expr(b),
{
    lemma_type_expr(a, b);
}

} // verus!
