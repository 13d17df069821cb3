//! Laws of renaming.

use crate::ast::{
    Block, CaseArm, ClassDecl, ClassMember, DeinitDecl, Element, ElementMember, EnumDecl,
    EnumVariant, Expr, ExprKind, Field, FnDecl, Ident, InitDecl, Item, LetBinding, LetDecl,
    MapEntry, Module, Param, PropertyDecl, SignalDecl, StateField, StateFieldKind, Stmt, StrPart,
    StructDecl, StyleBody, StyleDecl, StyleEntry, TypeExpr, TypeKind, ViewDecl, WidgetDecl,
};
use crate::ast_copy::{
    same_block, same_case_arm, same_case_arms, same_class_decl, same_class_member,
    same_class_members, same_deinit_decl, same_element, same_element_member, same_element_members,
    same_enum_decl, same_enum_variant, same_enum_variants, same_expr, same_expr_kind, same_exprs,
    same_field, same_fields, same_fn_decl, same_fn_decls, same_init_decl, same_item,
    same_let_binding, same_let_decl, same_map_entries, same_map_entry, same_module, same_opt_block,
    same_opt_boxed_expr, same_opt_expr, same_opt_let_binding, same_opt_type_expr, same_param,
    same_params, same_property_decl, same_signal_decl, same_state_field, same_state_field_kind,
    same_state_fields, same_stmt, same_stmts, same_str_part, same_str_parts, same_struct_decl,
    same_style_body, same_style_decl, same_style_entries, same_style_entry, same_type_expr,
    same_type_exprs, same_type_kind, same_view_decl, same_widget_decl,
};
use crate::mangle::{
    EmitNames, block_renamed, case_arm_renamed, case_arms_renamed, class_decl_renamed,
    class_member_renamed, class_members_renamed, collides, declared_in, deinit_decl_renamed,
    element_member_renamed, element_members_renamed, element_renamed, emit_name, enum_decl_renamed,
    enum_variant_renamed, enum_variants_renamed, expr_kind_renamed, expr_renamed, exprs_renamed,
    field_renamed, fields_renamed, fn_decl_renamed, fn_decls_renamed, init_decl_renamed,
    is_colliding, item_renamed, last_name, let_binding_renamed, let_decl_renamed, lookup, mangled,
    map_entries_renamed, map_entry_renamed, module_renamed, names_of, opt_block_renamed,
    opt_boxed_expr_renamed, opt_expr_renamed, opt_let_binding_renamed, opt_type_expr_renamed,
    param_renamed, params_renamed, property_decl_renamed, resolved, signal_decl_renamed,
    state_field_kind_renamed, state_field_renamed, state_fields_renamed, stmt_renamed,
    stmts_renamed, str_part_renamed, str_parts_renamed, struct_decl_renamed, style_body_renamed,
    style_decl_renamed, style_entries_renamed, style_entry_renamed, type_expr_renamed,
    type_exprs_renamed, type_kind_renamed, view_decl_renamed, widget_decl_renamed,
};
use crate::naming::{capitalized, upper};
use crate::project::{module_of_file, ProjectInfo};
use crate::text::{ascii_upper, is_ascii_lower, is_ascii_upper};
use vstd::prelude::*;

verus! {

/// No name collides, and each class is emitted under its own name.
pub open spec fn nothing_collides(names: EmitNames) -> bool {
    &&& forall|name: Seq<char>| !#[trigger] is_colliding(names, name)
    &&& forall|module: Seq<char>, name: Seq<char>|
        #[trigger] lookup(names.map@, module, name) is Some ==> lookup(names.map@, module, name)
            == Some(name)
}

// ---- trees without qualified elements -----------------------------------------

pub open spec fn bare_fn_decl(a: FnDecl) -> bool
    decreases a,
{
    &&& bare_params(a.params)
    &&& bare_opt_type_expr(a.return_ty)
    &&& bare_opt_block(a.body)
}

pub open spec fn bare_class_members(a: Vec<ClassMember>) -> bool
    decreases a,
{
    forall|i: int| 0 <= i < a@.len() ==> bare_class_member(#[trigger] a[i])
}

pub open spec fn bare_fields(a: Vec<Field>) -> bool
    decreases a,
{
    forall|i: int| 0 <= i < a@.len() ==> bare_field(#[trigger] a[i])
}

pub open spec fn bare_fn_decls(a: Vec<FnDecl>) -> bool
    decreases a,
{
    forall|i: int| 0 <= i < a@.len() ==> bare_fn_decl(#[trigger] a[i])
}

pub open spec fn bare_enum_variants(a: Vec<EnumVariant>) -> bool
    decreases a,
{
    forall|i: int| 0 <= i < a@.len() ==> bare_enum_variant(#[trigger] a[i])
}

pub open spec fn bare_state_fields(a: Vec<StateField>) -> bool
    decreases a,
{
    forall|i: int| 0 <= i < a@.len() ==> bare_state_field(#[trigger] a[i])
}

pub open spec fn bare_element(a: Element) -> bool
    decreases a,
{
    &&& a.path@.len() == 0
    &&& bare_element_members(a.members)
}

pub open spec fn bare_style_body(a: StyleBody) -> bool
    decreases a,
{
    match a {
        StyleBody::Lit(x) => bare_style_entries(x),
        StyleBody::Alias(x) => bare_expr(x),
    }
}

pub open spec fn bare_params(a: Vec<Param>) -> bool
    decreases a,
{
    forall|i: int| 0 <= i < a@.len() ==> bare_param(#[trigger] a[i])
}

pub open spec fn bare_opt_type_expr(a: Option<TypeExpr>) -> bool
    decreases a,
{
    match a {
        Some(x) => bare_type_expr(x),
        None => true,
    }
}

pub open spec fn bare_opt_block(a: Option<Block>) -> bool
    decreases a,
{
    match a {
        Some(x) => bare_block(x),
        None => true,
    }
}

pub open spec fn bare_class_member(a: ClassMember) -> bool
    decreases a,
{
    match a {
        ClassMember::Property(x) => bare_property_decl(x),
        ClassMember::Signal(x) => bare_signal_decl(x),
        ClassMember::Fn(x) => bare_fn_decl(x),
        ClassMember::Slot(x) => bare_fn_decl(x),
        ClassMember::Field(x) => bare_field(x),
        ClassMember::Init(x) => bare_init_decl(x),
        ClassMember::Deinit(x) => bare_deinit_decl(x),
    }
}

pub open spec fn bare_field(a: Field) -> bool
    decreases a,
{
    &&& bare_type_expr(a.ty)
    &&& bare_opt_expr(a.default)
}

pub open spec fn bare_enum_variant(a: EnumVariant) -> bool
    decreases a,
{
    &&& bare_opt_expr(a.value)
    &&& bare_fields(a.fields)
}

pub open spec fn bare_state_field(a: StateField) -> bool
    decreases a,
{
    &&& bare_state_field_kind(a.kind)
    &&& bare_expr(a.init_expr)
}

pub open spec fn bare_element_members(a: Vec<ElementMember>) -> bool
    decreases a,
{
    forall|i: int| 0 <= i < a@.len() ==> bare_element_member(#[trigger] a[i])
}

pub open spec fn bare_style_entries(a: Vec<StyleEntry>) -> bool
    decreases a,
{
    forall|i: int| 0 <= i < a@.len() ==> bare_style_entry(#[trigger] a[i])
}

pub open spec fn bare_expr(a: Expr) -> bool
    decreases a,
{
    &&& bare_expr_kind(a.kind)
}

pub open spec fn bare_param(a: Param) -> bool
    decreases a,
{
    &&& bare_type_expr(a.ty)
    &&& bare_opt_expr(a.default)
}

pub open spec fn bare_type_expr(a: TypeExpr) -> bool
    decreases a,
{
    &&& bare_type_kind(a.kind)
}

pub open spec fn bare_block(a: Block) -> bool
    decreases a,
{
    &&& bare_stmts(a.stmts)
    &&& bare_opt_boxed_expr(a.trailing)
}

pub open spec fn bare_property_decl(a: PropertyDecl) -> bool
    decreases a,
{
    &&& bare_type_expr(a.ty)
    &&& bare_opt_expr(a.default)
    &&& bare_opt_expr(a.binding)
    &&& bare_opt_expr(a.fresh)
}

pub open spec fn bare_signal_decl(a: SignalDecl) -> bool
    decreases a,
{
    &&& bare_params(a.params)
}

pub open spec fn bare_init_decl(a: InitDecl) -> bool
    decreases a,
{
    &&& bare_params(a.params)
    &&& bare_block(a.body)
}

pub open spec fn bare_deinit_decl(a: DeinitDecl) -> bool
    decreases a,
{
    &&& bare_block(a.body)
}

pub open spec fn bare_opt_expr(a: Option<Expr>) -> bool
    decreases a,
{
    match a {
        Some(x) => bare_expr(x),
        None => true,
    }
}

pub open spec fn bare_state_field_kind(a: StateFieldKind) -> bool
    decreases a,
{
    match a {
        StateFieldKind::Property { ty, .. } => bare_type_expr(ty),
        _ => true,
    }
}

pub open spec fn bare_element_member(a: ElementMember) -> bool
    decreases a,
{
    match a {
        ElementMember::Property { value, .. } => bare_expr(value),
        ElementMember::Child(x) => bare_element(x),
        ElementMember::Stmt(x) => bare_stmt(x),
    }
}

pub open spec fn bare_style_entry(a: StyleEntry) -> bool
    decreases a,
{
    &&& bare_expr(a.value)
}

pub open spec fn bare_expr_kind(a: ExprKind) -> bool
    decreases a,
{
    match a {
        ExprKind::Call { callee, args, block, type_args, .. } => {
            &&& bare_expr(*callee)
            &&& bare_exprs(args)
            &&& bare_opt_boxed_expr(block)
            &&& bare_type_exprs(type_args)
        },
        ExprKind::MethodCall { receiver, args, block, type_args, .. } => {
            &&& bare_expr(*receiver)
            &&& bare_exprs(args)
            &&& bare_opt_boxed_expr(block)
            &&& bare_type_exprs(type_args)
        },
        ExprKind::Member { receiver, .. } => bare_expr(*receiver),
        ExprKind::SafeMember { receiver, .. } => bare_expr(*receiver),
        ExprKind::SafeMethodCall { receiver, args, block, type_args, .. } => {
            &&& bare_expr(*receiver)
            &&& bare_exprs(args)
            &&& bare_opt_boxed_expr(block)
            &&& bare_type_exprs(type_args)
        },
        ExprKind::Index { receiver, index, .. } => {
            &&& bare_expr(*receiver)
            &&& bare_expr(*index)
        },
        ExprKind::Block(x) => bare_block(x),
        ExprKind::Lambda { params, body, .. } => {
            &&& bare_params(params)
            &&& bare_block(body)
        },
        ExprKind::Unary { expr, .. } => bare_expr(*expr),
        ExprKind::Binary { lhs, rhs, .. } => {
            &&& bare_expr(*lhs)
            &&& bare_expr(*rhs)
        },
        ExprKind::Try(x) => bare_expr(*x),
        ExprKind::Await(x) => bare_expr(*x),
        ExprKind::If { cond, then_b, else_b, let_binding, .. } => {
            &&& bare_expr(*cond)
            &&& bare_block(then_b)
            &&& bare_opt_block(else_b)
            &&& bare_opt_let_binding(let_binding)
        },
        ExprKind::Case { scrutinee, arms, .. } => {
            &&& bare_expr(*scrutinee)
            &&& bare_case_arms(arms)
        },
        ExprKind::Kwarg { value, .. } => bare_expr(*value),
        ExprKind::Element(x) => bare_element(x),
        ExprKind::Array(x) => bare_exprs(x),
        ExprKind::MapLit(x) => bare_map_entries(x),
        ExprKind::Range { start, end, .. } => {
            &&& bare_expr(*start)
            &&& bare_expr(*end)
        },
        ExprKind::Str(x) => bare_str_parts(x),
        _ => true,
    }
}

pub open spec fn bare_type_kind(a: TypeKind) -> bool
    decreases a,
{
    match a {
        TypeKind::Named { args, .. } => bare_type_exprs(args),
        TypeKind::Nullable(x) => bare_type_expr(*x),
        TypeKind::ErrorUnion(x) => bare_type_expr(*x),
        TypeKind::Fn { params, ret, .. } => {
            &&& bare_type_exprs(params)
            &&& bare_type_expr(*ret)
        },
        _ => true,
    }
}

pub open spec fn bare_stmts(a: Vec<Stmt>) -> bool
    decreases a,
{
    forall|i: int| 0 <= i < a@.len() ==> bare_stmt(#[trigger] a[i])
}

pub open spec fn bare_opt_boxed_expr(a: Option<Box<Expr>>) -> bool
    decreases a,
{
    match a {
        Some(x) => bare_expr(*x),
        None => true,
    }
}

pub open spec fn bare_stmt(a: Stmt) -> bool
    decreases a,
{
    match a {
        Stmt::Let { ty, value, .. } => {
            &&& bare_opt_type_expr(ty)
            &&& bare_expr(value)
        },
        Stmt::Var { ty, value, .. } => {
            &&& bare_opt_type_expr(ty)
            &&& bare_expr(value)
        },
        Stmt::Expr(x) => bare_expr(x),
        Stmt::Return { value, .. } => bare_opt_expr(value),
        Stmt::Emit { args, .. } => bare_exprs(args),
        Stmt::Assign { target, value, .. } => {
            &&& bare_expr(target)
            &&& bare_expr(value)
        },
        Stmt::For { iter, body, .. } => {
            &&& bare_expr(iter)
            &&& bare_block(body)
        },
        Stmt::While { cond, body, .. } => {
            &&& bare_expr(cond)
            &&& bare_block(body)
        },
        Stmt::Batch { body, .. } => bare_block(body),
        _ => true,
    }
}

pub open spec fn bare_exprs(a: Vec<Expr>) -> bool
    decreases a,
{
    forall|i: int| 0 <= i < a@.len() ==> bare_expr(#[trigger] a[i])
}

pub open spec fn bare_type_exprs(a: Vec<TypeExpr>) -> bool
    decreases a,
{
    forall|i: int| 0 <= i < a@.len() ==> bare_type_expr(#[trigger] a[i])
}

pub open spec fn bare_opt_let_binding(a: Option<LetBinding>) -> bool
    decreases a,
{
    match a {
        Some(x) => bare_let_binding(x),
        None => true,
    }
}

pub open spec fn bare_case_arms(a: Vec<CaseArm>) -> bool
    decreases a,
{
    forall|i: int| 0 <= i < a@.len() ==> bare_case_arm(#[trigger] a[i])
}

pub open spec fn bare_map_entries(a: Vec<MapEntry>) -> bool
    decreases a,
{
    forall|i: int| 0 <= i < a@.len() ==> bare_map_entry(#[trigger] a[i])
}

pub open spec fn bare_str_parts(a: Vec<StrPart>) -> bool
    decreases a,
{
    forall|i: int| 0 <= i < a@.len() ==> bare_str_part(#[trigger] a[i])
}

pub open spec fn bare_let_binding(a: LetBinding) -> bool
    decreases a,
{
    &&& bare_expr(*a.value)
}

pub open spec fn bare_case_arm(a: CaseArm) -> bool
    decreases a,
{
    &&& bare_block(a.body)
}

pub open spec fn bare_map_entry(a: MapEntry) -> bool
    decreases a,
{
    &&& bare_expr(a.key)
    &&& bare_expr(a.value)
}

pub open spec fn bare_str_part(a: StrPart) -> bool
    decreases a,
{
    match a {
        StrPart::Interp(x) => bare_expr(*x),
        StrPart::InterpFmt { expr, .. } => bare_expr(*expr),
        _ => true,
    }
}

// ---- renaming by a table without collisions -----------------------------------

proof fn lemma_fn_decl_plain(
    names: EmitNames,
    project: ProjectInfo,
    m: Option<Seq<char>>,
    a: FnDecl,
    b: FnDecl,
)
    requires
        nothing_collides(names),
        fn_decl_renamed(names, project, m, a, b),
        bare_fn_decl(a),
    ensures
        same_fn_decl(a, b),
    decreases a,
{
    let inner = if m is Some {
        m
    } else {
        module_of_file(a.span.file, project)
    };
    lemma_params_plain(names, project, inner, a.params, b.params);
    lemma_opt_type_expr_plain(names, project, inner, a.return_ty, b.return_ty);
    lemma_opt_block_plain(names, project, inner, a.body, b.body);
}

proof fn lemma_class_members_plain(
    names: EmitNames,
    project: ProjectInfo,
    m: Option<Seq<char>>,
    a: Vec<ClassMember>,
    b: Vec<ClassMember>,
)
    requires
        nothing_collides(names),
        class_members_renamed(names, project, m, a, b),
        bare_class_members(a),
    ensures
        same_class_members(a, b),
    decreases a,
{
    assert forall|i: int| 0 <= i < a@.len() implies same_class_member(#[trigger] a[i], b[i]) by {
        lemma_class_member_plain(names, project, m, a[i], b[i]);
    }
}

proof fn lemma_fields_plain(
    names: EmitNames,
    project: ProjectInfo,
    m: Option<Seq<char>>,
    a: Vec<Field>,
    b: Vec<Field>,
)
    requires
        nothing_collides(names),
        fields_renamed(names, project, m, a, b),
        bare_fields(a),
    ensures
        same_fields(a, b),
    decreases a,
{
    assert forall|i: int| 0 <= i < a@.len() implies same_field(#[trigger] a[i], b[i]) by {
        lemma_field_plain(names, project, m, a[i], b[i]);
    }
}

proof fn lemma_fn_decls_plain(
    names: EmitNames,
    project: ProjectInfo,
    m: Option<Seq<char>>,
    a: Vec<FnDecl>,
    b: Vec<FnDecl>,
)
    requires
        nothing_collides(names),
        fn_decls_renamed(names, project, m, a, b),
        bare_fn_decls(a),
    ensures
        same_fn_decls(a, b),
    decreases a,
{
    assert forall|i: int| 0 <= i < a@.len() implies same_fn_decl(#[trigger] a[i], b[i]) by {
        lemma_fn_decl_plain(names, project, m, a[i], b[i]);
    }
}

proof fn lemma_enum_variants_plain(
    names: EmitNames,
    project: ProjectInfo,
    m: Option<Seq<char>>,
    a: Vec<EnumVariant>,
    b: Vec<EnumVariant>,
)
    requires
        nothing_collides(names),
        enum_variants_renamed(names, project, m, a, b),
        bare_enum_variants(a),
    ensures
        same_enum_variants(a, b),
    decreases a,
{
    assert forall|i: int| 0 <= i < a@.len() implies same_enum_variant(#[trigger] a[i], b[i]) by {
        lemma_enum_variant_plain(names, project, m, a[i], b[i]);
    }
}

proof fn lemma_state_fields_plain(
    names: EmitNames,
    project: ProjectInfo,
    m: Option<Seq<char>>,
    a: Vec<StateField>,
    b: Vec<StateField>,
)
    requires
        nothing_collides(names),
        state_fields_renamed(names, project, m, a, b),
        bare_state_fields(a),
    ensures
        same_state_fields(a, b),
    decreases a,
{
    assert forall|i: int| 0 <= i < a@.len() implies same_state_field(#[trigger] a[i], b[i]) by {
        lemma_state_field_plain(names, project, m, a[i], b[i]);
    }
}

proof fn lemma_element_plain(
    names: EmitNames,
    project: ProjectInfo,
    m: Option<Seq<char>>,
    a: Element,
    b: Element,
)
    requires
        nothing_collides(names),
        element_renamed(names, project, m, a, b),
        bare_element(a),
    ensures
        same_element(a, b),
    decreases a,
{
    match resolved(names, a.name.name@, last_name(a.path@), m) {
        Some(emit) => {
            assert(emit == a.name.name@);
        },
        None => {},
    }
    lemma_element_members_plain(names, project, m, a.members, b.members);
}

proof fn lemma_style_body_plain(
    names: EmitNames,
    project: ProjectInfo,
    m: Option<Seq<char>>,
    a: StyleBody,
    b: StyleBody,
)
    requires
        nothing_collides(names),
        style_body_renamed(names, project, m, a, b),
        bare_style_body(a),
    ensures
        same_style_body(a, b),
    decreases a,
{
    match a {
        StyleBody::Lit(x) => {
            if let StyleBody::Lit(y) = b {
                lemma_style_entries_plain(names, project, m, x, y);
            }
        },
        StyleBody::Alias(x) => {
            if let StyleBody::Alias(y) = b {
                lemma_expr_plain(names, project, m, x, y);
            }
        },
    }
}

proof fn lemma_params_plain(
    names: EmitNames,
    project: ProjectInfo,
    m: Option<Seq<char>>,
    a: Vec<Param>,
    b: Vec<Param>,
)
    requires
        nothing_collides(names),
        params_renamed(names, project, m, a, b),
        bare_params(a),
    ensures
        same_params(a, b),
    decreases a,
{
    assert forall|i: int| 0 <= i < a@.len() implies same_param(#[trigger] a[i], b[i]) by {
        lemma_param_plain(names, project, m, a[i], b[i]);
    }
}

proof fn lemma_opt_type_expr_plain(
    names: EmitNames,
    project: ProjectInfo,
    m: Option<Seq<char>>,
    a: Option<TypeExpr>,
    b: Option<TypeExpr>,
)
    requires
        nothing_collides(names),
        opt_type_expr_renamed(names, project, m, a, b),
        bare_opt_type_expr(a),
    ensures
        same_opt_type_expr(a, b),
    decreases a,
{
    match a {
        Some(x) => {
            lemma_type_expr_plain(names, project, m, x, b->0);
        },
        None => {},
    }
}

proof fn lemma_opt_block_plain(
    names: EmitNames,
    project: ProjectInfo,
    m: Option<Seq<char>>,
    a: Option<Block>,
    b: Option<Block>,
)
    requires
        nothing_collides(names),
        opt_block_renamed(names, project, m, a, b),
        bare_opt_block(a),
    ensures
        same_opt_block(a, b),
    decreases a,
{
    match a {
        Some(x) => {
            lemma_block_plain(names, project, m, x, b->0);
        },
        None => {},
    }
}

proof fn lemma_class_member_plain(
    names: EmitNames,
    project: ProjectInfo,
    m: Option<Seq<char>>,
    a: ClassMember,
    b: ClassMember,
)
    requires
        nothing_collides(names),
        class_member_renamed(names, project, m, a, b),
        bare_class_member(a),
    ensures
        same_class_member(a, b),
    decreases a,
{
    match a {
        ClassMember::Property(x) => {
            if let ClassMember::Property(y) = b {
                lemma_property_decl_plain(names, project, m, x, y);
            }
        },
        ClassMember::Signal(x) => {
            if let ClassMember::Signal(y) = b {
                lemma_signal_decl_plain(names, project, m, x, y);
            }
        },
        ClassMember::Fn(x) => {
            if let ClassMember::Fn(y) = b {
                lemma_fn_decl_plain(names, project, m, x, y);
            }
        },
        ClassMember::Slot(x) => {
            if let ClassMember::Slot(y) = b {
                lemma_fn_decl_plain(names, project, m, x, y);
            }
        },
        ClassMember::Field(x) => {
            if let ClassMember::Field(y) = b {
                lemma_field_plain(names, project, m, x, y);
            }
        },
        ClassMember::Init(x) => {
            if let ClassMember::Init(y) = b {
                lemma_init_decl_plain(names, project, m, x, y);
            }
        },
        ClassMember::Deinit(x) => {
            if let ClassMember::Deinit(y) = b {
                lemma_deinit_decl_plain(names, project, m, x, y);
            }
        },
    }
}

proof fn lemma_field_plain(
    names: EmitNames,
    project: ProjectInfo,
    m: Option<Seq<char>>,
    a: Field,
    b: Field,
)
    requires
        nothing_collides(names),
        field_renamed(names, project, m, a, b),
        bare_field(a),
    ensures
        same_field(a, b),
    decreases a,
{
    lemma_type_expr_plain(names, project, m, a.ty, b.ty);
    lemma_opt_expr_plain(names, project, m, a.default, b.default);
}

proof fn lemma_enum_variant_plain(
    names: EmitNames,
    project: ProjectInfo,
    m: Option<Seq<char>>,
    a: EnumVariant,
    b: EnumVariant,
)
    requires
        nothing_collides(names),
        enum_variant_renamed(names, project, m, a, b),
        bare_enum_variant(a),
    ensures
        same_enum_variant(a, b),
    decreases a,
{
    lemma_opt_expr_plain(names, project, m, a.value, b.value);
    lemma_fields_plain(names, project, m, a.fields, b.fields);
}

proof fn lemma_state_field_plain(
    names: EmitNames,
    project: ProjectInfo,
    m: Option<Seq<char>>,
    a: StateField,
    b: StateField,
)
    requires
        nothing_collides(names),
        state_field_renamed(names, project, m, a, b),
        bare_state_field(a),
    ensures
        same_state_field(a, b),
    decreases a,
{
    lemma_state_field_kind_plain(names, project, m, a.kind, b.kind);
    lemma_expr_plain(names, project, m, a.init_expr, b.init_expr);
}

proof fn lemma_element_members_plain(
    names: EmitNames,
    project: ProjectInfo,
    m: Option<Seq<char>>,
    a: Vec<ElementMember>,
    b: Vec<ElementMember>,
)
    requires
        nothing_collides(names),
        element_members_renamed(names, project, m, a, b),
        bare_element_members(a),
    ensures
        same_element_members(a, b),
    decreases a,
{
    assert forall|i: int| 0 <= i < a@.len() implies same_element_member(#[trigger] a[i], b[i]) by {
        lemma_element_member_plain(names, project, m, a[i], b[i]);
    }
}

proof fn lemma_style_entries_plain(
    names: EmitNames,
    project: ProjectInfo,
    m: Option<Seq<char>>,
    a: Vec<StyleEntry>,
    b: Vec<StyleEntry>,
)
    requires
        nothing_collides(names),
        style_entries_renamed(names, project, m, a, b),
        bare_style_entries(a),
    ensures
        same_style_entries(a, b),
    decreases a,
{
    assert forall|i: int| 0 <= i < a@.len() implies same_style_entry(#[trigger] a[i], b[i]) by {
        lemma_style_entry_plain(names, project, m, a[i], b[i]);
    }
}

proof fn lemma_expr_plain(
    names: EmitNames,
    project: ProjectInfo,
    m: Option<Seq<char>>,
    a: Expr,
    b: Expr,
)
    requires
        nothing_collides(names),
        expr_renamed(names, project, m, a, b),
        bare_expr(a),
    ensures
        same_expr(a, b),
    decreases a,
{
    lemma_expr_kind_plain(names, project, m, a.kind, b.kind);
}

proof fn lemma_param_plain(
    names: EmitNames,
    project: ProjectInfo,
    m: Option<Seq<char>>,
    a: Param,
    b: Param,
)
    requires
        nothing_collides(names),
        param_renamed(names, project, m, a, b),
        bare_param(a),
    ensures
        same_param(a, b),
    decreases a,
{
    lemma_type_expr_plain(names, project, m, a.ty, b.ty);
    lemma_opt_expr_plain(names, project, m, a.default, b.default);
}

proof fn lemma_type_expr_plain(
    names: EmitNames,
    project: ProjectInfo,
    m: Option<Seq<char>>,
    a: TypeExpr,
    b: TypeExpr,
)
    requires
        nothing_collides(names),
        type_expr_renamed(names, project, m, a, b),
        bare_type_expr(a),
    ensures
        same_type_expr(a, b),
    decreases a,
{
    lemma_type_kind_plain(names, project, m, a.kind, b.kind);
}

proof fn lemma_block_plain(
    names: EmitNames,
    project: ProjectInfo,
    m: Option<Seq<char>>,
    a: Block,
    b: Block,
)
    requires
        nothing_collides(names),
        block_renamed(names, project, m, a, b),
        bare_block(a),
    ensures
        same_block(a, b),
    decreases a,
{
    lemma_stmts_plain(names, project, m, a.stmts, b.stmts);
    lemma_opt_boxed_expr_plain(names, project, m, a.trailing, b.trailing);
}

proof fn lemma_property_decl_plain(
    names: EmitNames,
    project: ProjectInfo,
    m: Option<Seq<char>>,
    a: PropertyDecl,
    b: PropertyDecl,
)
    requires
        nothing_collides(names),
        property_decl_renamed(names, project, m, a, b),
        bare_property_decl(a),
    ensures
        same_property_decl(a, b),
    decreases a,
{
    lemma_type_expr_plain(names, project, m, a.ty, b.ty);
    lemma_opt_expr_plain(names, project, m, a.default, b.default);
    lemma_opt_expr_plain(names, project, m, a.binding, b.binding);
    lemma_opt_expr_plain(names, project, m, a.fresh, b.fresh);
}

proof fn lemma_signal_decl_plain(
    names: EmitNames,
    project: ProjectInfo,
    m: Option<Seq<char>>,
    a: SignalDecl,
    b: SignalDecl,
)
    requires
        nothing_collides(names),
        signal_decl_renamed(names, project, m, a, b),
        bare_signal_decl(a),
    ensures
        same_signal_decl(a, b),
    decreases a,
{
    lemma_params_plain(names, project, m, a.params, b.params);
}

proof fn lemma_init_decl_plain(
    names: EmitNames,
    project: ProjectInfo,
    m: Option<Seq<char>>,
    a: InitDecl,
    b: InitDecl,
)
    requires
        nothing_collides(names),
        init_decl_renamed(names, project, m, a, b),
        bare_init_decl(a),
    ensures
        same_init_decl(a, b),
    decreases a,
{
    lemma_params_plain(names, project, m, a.params, b.params);
    lemma_block_plain(names, project, m, a.body, b.body);
}

proof fn lemma_deinit_decl_plain(
    names: EmitNames,
    project: ProjectInfo,
    m: Option<Seq<char>>,
    a: DeinitDecl,
    b: DeinitDecl,
)
    requires
        nothing_collides(names),
        deinit_decl_renamed(names, project, m, a, b),
        bare_deinit_decl(a),
    ensures
        same_deinit_decl(a, b),
    decreases a,
{
    lemma_block_plain(names, project, m, a.body, b.body);
}

proof fn lemma_opt_expr_plain(
    names: EmitNames,
    project: ProjectInfo,
    m: Option<Seq<char>>,
    a: Option<Expr>,
    b: Option<Expr>,
)
    requires
        nothing_collides(names),
        opt_expr_renamed(names, project, m, a, b),
        bare_opt_expr(a),
    ensures
        same_opt_expr(a, b),
    decreases a,
{
    match a {
        Some(x) => {
            lemma_expr_plain(names, project, m, x, b->0);
        },
        None => {},
    }
}

proof fn lemma_state_field_kind_plain(
    names: EmitNames,
    project: ProjectInfo,
    m: Option<Seq<char>>,
    a: StateFieldKind,
    b: StateFieldKind,
)
    requires
        nothing_collides(names),
        state_field_kind_renamed(names, project, m, a, b),
        bare_state_field_kind(a),
    ensures
        same_state_field_kind(a, b),
    decreases a,
{
    match a {
        StateFieldKind::Property { ty, .. } => {
            if let StateFieldKind::Property { ty: ty2, .. } = b {
                lemma_type_expr_plain(names, project, m, ty, ty2);
            }
        },
        _ => {},
    }
}

proof fn lemma_element_member_plain(
    names: EmitNames,
    project: ProjectInfo,
    m: Option<Seq<char>>,
    a: ElementMember,
    b: ElementMember,
)
    requires
        nothing_collides(names),
        element_member_renamed(names, project, m, a, b),
        bare_element_member(a),
    ensures
        same_element_member(a, b),
    decreases a,
{
    match a {
        ElementMember::Property { value, .. } => {
            if let ElementMember::Property { value: value2, .. } = b {
                lemma_expr_plain(names, project, m, value, value2);
            }
        },
        ElementMember::Child(x) => {
            if let ElementMember::Child(y) = b {
                lemma_element_plain(names, project, m, x, y);
            }
        },
        ElementMember::Stmt(x) => {
            if let ElementMember::Stmt(y) = b {
                lemma_stmt_plain(names, project, m, x, y);
            }
        },
    }
}

proof fn lemma_style_entry_plain(
    names: EmitNames,
    project: ProjectInfo,
    m: Option<Seq<char>>,
    a: StyleEntry,
    b: StyleEntry,
)
    requires
        nothing_collides(names),
        style_entry_renamed(names, project, m, a, b),
        bare_style_entry(a),
    ensures
        same_style_entry(a, b),
    decreases a,
{
    lemma_expr_plain(names, project, m, a.value, b.value);
}

proof fn lemma_expr_kind_plain(
    names: EmitNames,
    project: ProjectInfo,
    m: Option<Seq<char>>,
    a: ExprKind,
    b: ExprKind,
)
    requires
        nothing_collides(names),
        expr_kind_renamed(names, project, m, a, b),
        bare_expr_kind(a),
    ensures
        same_expr_kind(a, b),
    decreases a,
{
    match a {
        ExprKind::Ident(_) => {},
        ExprKind::Path(_) => {},
        ExprKind::Call { callee, args, block, type_args, .. } => {
            if let ExprKind::Call { callee: callee2, args: args2, block: block2, type_args: type_args2, .. } = b {
                lemma_expr_plain(names, project, m, *callee, *callee2);
                lemma_exprs_plain(names, project, m, args, args2);
                lemma_opt_boxed_expr_plain(names, project, m, block, block2);
                lemma_type_exprs_plain(names, project, m, type_args, type_args2);
            }
        },
        ExprKind::MethodCall { receiver, args, block, type_args, .. } => {
            if let ExprKind::MethodCall { receiver: receiver2, args: args2, block: block2, type_args: type_args2, .. } = b {
                lemma_expr_plain(names, project, m, *receiver, *receiver2);
                lemma_exprs_plain(names, project, m, args, args2);
                lemma_opt_boxed_expr_plain(names, project, m, block, block2);
                lemma_type_exprs_plain(names, project, m, type_args, type_args2);
            }
        },
        ExprKind::Member { receiver, name } => {
            if let ExprKind::Member { receiver: receiver2, name: name2 } = b {
                lemma_expr_plain(names, project, m, *receiver, *receiver2);
            }
        },
        ExprKind::SafeMember { receiver, .. } => {
            if let ExprKind::SafeMember { receiver: receiver2, .. } = b {
                lemma_expr_plain(names, project, m, *receiver, *receiver2);
            }
        },
        ExprKind::SafeMethodCall { receiver, args, block, type_args, .. } => {
            if let ExprKind::SafeMethodCall { receiver: receiver2, args: args2, block: block2, type_args: type_args2, .. } = b {
                lemma_expr_plain(names, project, m, *receiver, *receiver2);
                lemma_exprs_plain(names, project, m, args, args2);
                lemma_opt_boxed_expr_plain(names, project, m, block, block2);
                lemma_type_exprs_plain(names, project, m, type_args, type_args2);
            }
        },
        ExprKind::Index { receiver, index, .. } => {
            if let ExprKind::Index { receiver: receiver2, index: index2, .. } = b {
                lemma_expr_plain(names, project, m, *receiver, *receiver2);
                lemma_expr_plain(names, project, m, *index, *index2);
            }
        },
        ExprKind::Block(x) => {
            if let ExprKind::Block(y) = b {
                lemma_block_plain(names, project, m, x, y);
            }
        },
        ExprKind::Lambda { params, body, .. } => {
            if let ExprKind::Lambda { params: params2, body: body2, .. } = b {
                lemma_params_plain(names, project, m, params, params2);
                lemma_block_plain(names, project, m, body, body2);
            }
        },
        ExprKind::Unary { expr, .. } => {
            if let ExprKind::Unary { expr: expr2, .. } = b {
                lemma_expr_plain(names, project, m, *expr, *expr2);
            }
        },
        ExprKind::Binary { lhs, rhs, .. } => {
            if let ExprKind::Binary { lhs: lhs2, rhs: rhs2, .. } = b {
                lemma_expr_plain(names, project, m, *lhs, *lhs2);
                lemma_expr_plain(names, project, m, *rhs, *rhs2);
            }
        },
        ExprKind::Try(x) => {
            if let ExprKind::Try(y) = b {
                lemma_expr_plain(names, project, m, *x, *y);
            }
        },
        ExprKind::Await(x) => {
            if let ExprKind::Await(y) = b {
                lemma_expr_plain(names, project, m, *x, *y);
            }
        },
        ExprKind::If { cond, then_b, else_b, let_binding, .. } => {
            if let ExprKind::If { cond: cond2, then_b: then_b2, else_b: else_b2, let_binding: let_binding2, .. } = b {
                lemma_expr_plain(names, project, m, *cond, *cond2);
                lemma_block_plain(names, project, m, then_b, then_b2);
                lemma_opt_block_plain(names, project, m, else_b, else_b2);
                lemma_opt_let_binding_plain(names, project, m, let_binding, let_binding2);
            }
        },
        ExprKind::Case { scrutinee, arms, .. } => {
            if let ExprKind::Case { scrutinee: scrutinee2, arms: arms2, .. } = b {
                lemma_expr_plain(names, project, m, *scrutinee, *scrutinee2);
                lemma_case_arms_plain(names, project, m, arms, arms2);
            }
        },
        ExprKind::Kwarg { value, .. } => {
            if let ExprKind::Kwarg { value: value2, .. } = b {
                lemma_expr_plain(names, project, m, *value, *value2);
            }
        },
        ExprKind::Element(x) => {
            if let ExprKind::Element(y) = b {
                lemma_element_plain(names, project, m, x, y);
            }
        },
        ExprKind::Array(x) => {
            if let ExprKind::Array(y) = b {
                lemma_exprs_plain(names, project, m, x, y);
            }
        },
        ExprKind::MapLit(x) => {
            if let ExprKind::MapLit(y) = b {
                lemma_map_entries_plain(names, project, m, x, y);
            }
        },
        ExprKind::Range { start, end, .. } => {
            if let ExprKind::Range { start: start2, end: end2, .. } = b {
                lemma_expr_plain(names, project, m, *start, *start2);
                lemma_expr_plain(names, project, m, *end, *end2);
            }
        },
        ExprKind::Str(x) => {
            if let ExprKind::Str(y) = b {
                lemma_str_parts_plain(names, project, m, x, y);
            }
        },
        _ => {},
    }
}

proof fn lemma_type_kind_plain(
    names: EmitNames,
    project: ProjectInfo,
    m: Option<Seq<char>>,
    a: TypeKind,
    b: TypeKind,
)
    requires
        nothing_collides(names),
        type_kind_renamed(names, project, m, a, b),
        bare_type_kind(a),
    ensures
        same_type_kind(a, b),
    decreases a,
{
    match a {
        TypeKind::Named { path, args } => {
            if let TypeKind::Named { path: path2, args: args2 } = b {
                lemma_type_exprs_plain(names, project, m, args, args2);
            }
        },
        TypeKind::Nullable(x) => {
            if let TypeKind::Nullable(y) = b {
                lemma_type_expr_plain(names, project, m, *x, *y);
            }
        },
        TypeKind::ErrorUnion(x) => {
            if let TypeKind::ErrorUnion(y) = b {
                lemma_type_expr_plain(names, project, m, *x, *y);
            }
        },
        TypeKind::Fn { params, ret, .. } => {
            if let TypeKind::Fn { params: params2, ret: ret2, .. } = b {
                lemma_type_exprs_plain(names, project, m, params, params2);
                lemma_type_expr_plain(names, project, m, *ret, *ret2);
            }
        },
        _ => {},
    }
}

proof fn lemma_stmts_plain(
    names: EmitNames,
    project: ProjectInfo,
    m: Option<Seq<char>>,
    a: Vec<Stmt>,
    b: Vec<Stmt>,
)
    requires
        nothing_collides(names),
        stmts_renamed(names, project, m, a, b),
        bare_stmts(a),
    ensures
        same_stmts(a, b),
    decreases a,
{
    assert forall|i: int| 0 <= i < a@.len() implies same_stmt(#[trigger] a[i], b[i]) by {
        lemma_stmt_plain(names, project, m, a[i], b[i]);
    }
}

proof fn lemma_opt_boxed_expr_plain(
    names: EmitNames,
    project: ProjectInfo,
    m: Option<Seq<char>>,
    a: Option<Box<Expr>>,
    b: Option<Box<Expr>>,
)
    requires
        nothing_collides(names),
        opt_boxed_expr_renamed(names, project, m, a, b),
        bare_opt_boxed_expr(a),
    ensures
        same_opt_boxed_expr(a, b),
    decreases a,
{
    match a {
        Some(x) => {
            lemma_expr_plain(names, project, m, *x, *b->0);
        },
        None => {},
    }
}

proof fn lemma_stmt_plain(
    names: EmitNames,
    project: ProjectInfo,
    m: Option<Seq<char>>,
    a: Stmt,
    b: Stmt,
)
    requires
        nothing_collides(names),
        stmt_renamed(names, project, m, a, b),
        bare_stmt(a),
    ensures
        same_stmt(a, b),
    decreases a,
{
    match a {
        Stmt::Let { ty, value, .. } => {
            if let Stmt::Let { ty: ty2, value: value2, .. } = b {
                lemma_opt_type_expr_plain(names, project, m, ty, ty2);
                lemma_expr_plain(names, project, m, value, value2);
            }
        },
        Stmt::Var { ty, value, .. } => {
            if let Stmt::Var { ty: ty2, value: value2, .. } = b {
                lemma_opt_type_expr_plain(names, project, m, ty, ty2);
                lemma_expr_plain(names, project, m, value, value2);
            }
        },
        Stmt::Expr(x) => {
            if let Stmt::Expr(y) = b {
                lemma_expr_plain(names, project, m, x, y);
            }
        },
        Stmt::Return { value, .. } => {
            if let Stmt::Return { value: value2, .. } = b {
                lemma_opt_expr_plain(names, project, m, value, value2);
            }
        },
        Stmt::Emit { args, .. } => {
            if let Stmt::Emit { args: args2, .. } = b {
                lemma_exprs_plain(names, project, m, args, args2);
            }
        },
        Stmt::Assign { target, value, .. } => {
            if let Stmt::Assign { target: target2, value: value2, .. } = b {
                lemma_expr_plain(names, project, m, target, target2);
                lemma_expr_plain(names, project, m, value, value2);
            }
        },
        Stmt::For { iter, body, .. } => {
            if let Stmt::For { iter: iter2, body: body2, .. } = b {
                lemma_expr_plain(names, project, m, iter, iter2);
                lemma_block_plain(names, project, m, body, body2);
            }
        },
        Stmt::While { cond, body, .. } => {
            if let Stmt::While { cond: cond2, body: body2, .. } = b {
                lemma_expr_plain(names, project, m, cond, cond2);
                lemma_block_plain(names, project, m, body, body2);
            }
        },
        Stmt::Batch { body, .. } => {
            if let Stmt::Batch { body: body2, .. } = b {
                lemma_block_plain(names, project, m, body, body2);
            }
        },
        _ => {},
    }
}

proof fn lemma_exprs_plain(
    names: EmitNames,
    project: ProjectInfo,
    m: Option<Seq<char>>,
    a: Vec<Expr>,
    b: Vec<Expr>,
)
    requires
        nothing_collides(names),
        exprs_renamed(names, project, m, a, b),
        bare_exprs(a),
    ensures
        same_exprs(a, b),
    decreases a,
{
    assert forall|i: int| 0 <= i < a@.len() implies same_expr(#[trigger] a[i], b[i]) by {
        lemma_expr_plain(names, project, m, a[i], b[i]);
    }
}

proof fn lemma_type_exprs_plain(
    names: EmitNames,
    project: ProjectInfo,
    m: Option<Seq<char>>,
    a: Vec<TypeExpr>,
    b: Vec<TypeExpr>,
)
    requires
        nothing_collides(names),
        type_exprs_renamed(names, project, m, a, b),
        bare_type_exprs(a),
    ensures
        same_type_exprs(a, b),
    decreases a,
{
    assert forall|i: int| 0 <= i < a@.len() implies same_type_expr(#[trigger] a[i], b[i]) by {
        lemma_type_expr_plain(names, project, m, a[i], b[i]);
    }
}

proof fn lemma_opt_let_binding_plain(
    names: EmitNames,
    project: ProjectInfo,
    m: Option<Seq<char>>,
    a: Option<LetBinding>,
    b: Option<LetBinding>,
)
    requires
        nothing_collides(names),
        opt_let_binding_renamed(names, project, m, a, b),
        bare_opt_let_binding(a),
    ensures
        same_opt_let_binding(a, b),
    decreases a,
{
    match a {
        Some(x) => {
            lemma_let_binding_plain(names, project, m, x, b->0);
        },
        None => {},
    }
}

proof fn lemma_case_arms_plain(
    names: EmitNames,
    project: ProjectInfo,
    m: Option<Seq<char>>,
    a: Vec<CaseArm>,
    b: Vec<CaseArm>,
)
    requires
        nothing_collides(names),
        case_arms_renamed(names, project, m, a, b),
        bare_case_arms(a),
    ensures
        same_case_arms(a, b),
    decreases a,
{
    assert forall|i: int| 0 <= i < a@.len() implies same_case_arm(#[trigger] a[i], b[i]) by {
        lemma_case_arm_plain(names, project, m, a[i], b[i]);
    }
}

proof fn lemma_map_entries_plain(
    names: EmitNames,
    project: ProjectInfo,
    m: Option<Seq<char>>,
    a: Vec<MapEntry>,
    b: Vec<MapEntry>,
)
    requires
        nothing_collides(names),
        map_entries_renamed(names, project, m, a, b),
        bare_map_entries(a),
    ensures
        same_map_entries(a, b),
    decreases a,
{
    assert forall|i: int| 0 <= i < a@.len() implies same_map_entry(#[trigger] a[i], b[i]) by {
        lemma_map_entry_plain(names, project, m, a[i], b[i]);
    }
}

proof fn lemma_str_parts_plain(
    names: EmitNames,
    project: ProjectInfo,
    m: Option<Seq<char>>,
    a: Vec<StrPart>,
    b: Vec<StrPart>,
)
    requires
        nothing_collides(names),
        str_parts_renamed(names, project, m, a, b),
        bare_str_parts(a),
    ensures
        same_str_parts(a, b),
    decreases a,
{
    assert forall|i: int| 0 <= i < a@.len() implies same_str_part(#[trigger] a[i], b[i]) by {
        lemma_str_part_plain(names, project, m, a[i], b[i]);
    }
}

proof fn lemma_let_binding_plain(
    names: EmitNames,
    project: ProjectInfo,
    m: Option<Seq<char>>,
    a: LetBinding,
    b: LetBinding,
)
    requires
        nothing_collides(names),
        let_binding_renamed(names, project, m, a, b),
        bare_let_binding(a),
    ensures
        same_let_binding(a, b),
    decreases a,
{
    lemma_expr_plain(names, project, m, *a.value, *b.value);
}

proof fn lemma_case_arm_plain(
    names: EmitNames,
    project: ProjectInfo,
    m: Option<Seq<char>>,
    a: CaseArm,
    b: CaseArm,
)
    requires
        nothing_collides(names),
        case_arm_renamed(names, project, m, a, b),
        bare_case_arm(a),
    ensures
        same_case_arm(a, b),
    decreases a,
{
    lemma_block_plain(names, project, m, a.body, b.body);
}

proof fn lemma_map_entry_plain(
    names: EmitNames,
    project: ProjectInfo,
    m: Option<Seq<char>>,
    a: MapEntry,
    b: MapEntry,
)
    requires
        nothing_collides(names),
        map_entry_renamed(names, project, m, a, b),
        bare_map_entry(a),
    ensures
        same_map_entry(a, b),
    decreases a,
{
    lemma_expr_plain(names, project, m, a.key, b.key);
    lemma_expr_plain(names, project, m, a.value, b.value);
}

proof fn lemma_str_part_plain(
    names: EmitNames,
    project: ProjectInfo,
    m: Option<Seq<char>>,
    a: StrPart,
    b: StrPart,
)
    requires
        nothing_collides(names),
        str_part_renamed(names, project, m, a, b),
        bare_str_part(a),
    ensures
        same_str_part(a, b),
    decreases a,
{
    match a {
        StrPart::Interp(x) => {
            if let StrPart::Interp(y) = b {
                lemma_expr_plain(names, project, m, *x, *y);
            }
        },
        StrPart::InterpFmt { expr, .. } => {
            if let StrPart::InterpFmt { expr: expr2, .. } = b {
                lemma_expr_plain(names, project, m, *expr, *expr2);
            }
        },
        _ => {},
    }
}

pub open spec fn bare_class_decl(a: ClassDecl) -> bool {
    &&& bare_opt_type_expr(a.super_class)
    &&& bare_class_members(a.members)
}

proof fn lemma_class_decl_plain(names: EmitNames, project: ProjectInfo, a: ClassDecl, b: ClassDecl)
    requires
        nothing_collides(names),
        class_decl_renamed(names, project, a, b),
        bare_class_decl(a),
    ensures
        same_class_decl(a, b),
{
    let m = module_of_file(a.span.file, project);
    lemma_opt_type_expr_plain(names, project, m, a.super_class, b.super_class);
    lemma_class_members_plain(names, project, m, a.members, b.members);
}

pub open spec fn bare_struct_decl(a: StructDecl) -> bool {
    &&& bare_fields(a.fields)
    &&& bare_fn_decls(a.methods)
}

proof fn lemma_struct_decl_plain(
    names: EmitNames,
    project: ProjectInfo,
    a: StructDecl,
    b: StructDecl,
)
    requires
        nothing_collides(names),
        struct_decl_renamed(names, project, a, b),
        bare_struct_decl(a),
    ensures
        same_struct_decl(a, b),
{
    let m = module_of_file(a.span.file, project);
    lemma_fields_plain(names, project, m, a.fields, b.fields);
    lemma_fn_decls_plain(names, project, m, a.methods, b.methods);
}

pub open spec fn bare_enum_decl(a: EnumDecl) -> bool {
    &&& bare_enum_variants(a.variants)
}

proof fn lemma_enum_decl_plain(names: EmitNames, project: ProjectInfo, a: EnumDecl, b: EnumDecl)
    requires
        nothing_collides(names),
        enum_decl_renamed(names, project, a, b),
        bare_enum_decl(a),
    ensures
        same_enum_decl(a, b),
{
    let m = module_of_file(a.span.file, project);
    lemma_enum_variants_plain(names, project, m, a.variants, b.variants);
}

pub open spec fn bare_view_decl(a: ViewDecl) -> bool {
    &&& bare_params(a.params)
    &&& bare_state_fields(a.state_fields)
    &&& bare_element(a.root)
}

proof fn lemma_view_decl_plain(names: EmitNames, project: ProjectInfo, a: ViewDecl, b: ViewDecl)
    requires
        nothing_collides(names),
        view_decl_renamed(names, project, a, b),
        bare_view_decl(a),
    ensures
        same_view_decl(a, b),
{
    let m = module_of_file(a.span.file, project);
    lemma_params_plain(names, project, m, a.params, b.params);
    lemma_state_fields_plain(names, project, m, a.state_fields, b.state_fields);
    lemma_element_plain(names, project, m, a.root, b.root);
}

pub open spec fn bare_widget_decl(a: WidgetDecl) -> bool {
    &&& bare_params(a.params)
    &&& bare_state_fields(a.state_fields)
    &&& bare_element(a.root)
}

proof fn lemma_widget_decl_plain(
    names: EmitNames,
    project: ProjectInfo,
    a: WidgetDecl,
    b: WidgetDecl,
)
    requires
        nothing_collides(names),
        widget_decl_renamed(names, project, a, b),
        bare_widget_decl(a),
    ensures
        same_widget_decl(a, b),
{
    let m = module_of_file(a.span.file, project);
    lemma_params_plain(names, project, m, a.params, b.params);
    lemma_state_fields_plain(names, project, m, a.state_fields, b.state_fields);
    lemma_element_plain(names, project, m, a.root, b.root);
}

pub open spec fn bare_style_decl(a: StyleDecl) -> bool {
    &&& bare_style_body(a.body)
}

proof fn lemma_style_decl_plain(names: EmitNames, project: ProjectInfo, a: StyleDecl, b: StyleDecl)
    requires
        nothing_collides(names),
        style_decl_renamed(names, project, a, b),
        bare_style_decl(a),
    ensures
        same_style_decl(a, b),
{
    let m = module_of_file(a.span.file, project);
    lemma_style_body_plain(names, project, m, a.body, b.body);
}

pub open spec fn bare_let_decl(a: LetDecl) -> bool {
    &&& bare_type_expr(a.ty)
    &&& bare_expr(a.value)
}

proof fn lemma_let_decl_plain(names: EmitNames, project: ProjectInfo, a: LetDecl, b: LetDecl)
    requires
        nothing_collides(names),
        let_decl_renamed(names, project, a, b),
        bare_let_decl(a),
    ensures
        same_let_decl(a, b),
{
    let m = module_of_file(a.span.file, project);
    lemma_type_expr_plain(names, project, m, a.ty, b.ty);
    lemma_expr_plain(names, project, m, a.value, b.value);
}

/// No element of the item is qualified by a module.
pub open spec fn bare_item(a: Item) -> bool {
    match a {
        Item::Class(x) => bare_class_decl(x),
        Item::Struct(x) => bare_struct_decl(x),
        Item::Fn(x) => bare_fn_decl(x),
        Item::View(x) => bare_view_decl(x),
        Item::Widget(x) => bare_widget_decl(x),
        Item::Style(x) => bare_style_decl(x),
        Item::Enum(x) => bare_enum_decl(x),
        Item::Let(x) => bare_let_decl(x),
        _ => true,
    }
}

/// Where no class name collides, a module without qualified elements comes out
/// of renaming as it went in.
pub proof fn law_unique_names_unchanged(
    names: EmitNames,
    project: ProjectInfo,
    a: Module,
    b: Module,
)
    requires
        names_of(names, a.items@, project),
        forall|name: Seq<char>| !collides(a.items@, project, name),
        module_renamed(names, project, a, b),
        forall|i: int| 0 <= i < a.items@.len() ==> bare_item(#[trigger] a.items@[i]),
    ensures
        same_module(a, b),
{
    lemma_no_collision(names, project, a.items@);
    assert forall|i: int| 0 <= i < a.items@.len() implies same_item(#[trigger] a.items[i], b.items[i]) by {
        assert(a.items@[i] == a.items[i]);
        assert(item_renamed(names, project, a.items@[i], b.items@[i]));
        match a.items[i] {
            Item::Class(x) => {
                if let Item::Class(y) = b.items[i] {
                    lemma_class_decl_plain(names, project, x, y);
                }
            },
            Item::Struct(x) => {
                if let Item::Struct(y) = b.items[i] {
                    lemma_struct_decl_plain(names, project, x, y);
                }
            },
            Item::Fn(x) => {
                if let Item::Fn(y) = b.items[i] {
                    lemma_fn_decl_plain(names, project, None, x, y);
                }
            },
            Item::View(x) => {
                if let Item::View(y) = b.items[i] {
                    lemma_view_decl_plain(names, project, x, y);
                }
            },
            Item::Widget(x) => {
                if let Item::Widget(y) = b.items[i] {
                    lemma_widget_decl_plain(names, project, x, y);
                }
            },
            Item::Style(x) => {
                if let Item::Style(y) = b.items[i] {
                    lemma_style_decl_plain(names, project, x, y);
                }
            },
            Item::Let(x) => {
                if let Item::Let(y) = b.items[i] {
                    lemma_let_decl_plain(names, project, x, y);
                }
            },
            Item::Enum(x) => {
                if let Item::Enum(y) = b.items[i] {
                    lemma_enum_decl_plain(names, project, x, y);
                }
            },
            _ => {},
        }
    }
}

/// The table of classes whose names are unique maps each to its own name.
proof fn lemma_no_collision(names: EmitNames, project: ProjectInfo, items: Seq<Item>)
    requires
        names_of(names, items, project),
        forall|name: Seq<char>| !collides(items, project, name),
    ensures
        nothing_collides(names),
{
    assert forall|name: Seq<char>| !#[trigger] is_colliding(names, name) by {
        assert(!collides(items, project, name));
    }
    assert forall|module: Seq<char>, name: Seq<char>| #[trigger] lookup(names.map@, module, name) is Some implies lookup(
        names.map@,
        module,
        name,
    ) == Some(name) by {
        assert(!collides(items, project, name));
    }
}

/// Classes of one name get different names in modules that differ by more than
/// the case of their first letter.
pub proof fn law_mangled_names_differ(module1: Seq<char>, module2: Seq<char>, name: Seq<char>)
    requires
        capitalized(module1) != capitalized(module2),
    ensures
        mangled(module1, name) != mangled(module2, name),
{
    let a = capitalized(module1);
    let b = capitalized(module2);
    let tail = "__"@ + name;
    assert(mangled(module1, name) =~= a + tail);
    assert(mangled(module2, name) =~= b + tail);
    if a + tail == b + tail {
        assert(a.len() == b.len());
        assert forall|i: int| 0 <= i < a.len() implies a[i] == b[i] by {
            assert((a + tail)[i] == (b + tail)[i]);
        }
        assert(a =~= b);
    }
}

/// Where no class name collides, an expression without qualified elements comes
/// out of renaming as it went in.
pub proof fn law_unique_names_leave_expressions(
    names: EmitNames,
    project: ProjectInfo,
    items: Seq<Item>,
    m: Option<Seq<char>>,
    a: ExprKind,
    b: ExprKind,
)
    requires
        names_of(names, items, project),
        forall|name: Seq<char>| !collides(items, project, name),
        expr_kind_renamed(names, project, m, a, b),
        bare_expr_kind(a),
    ensures
        same_expr_kind(a, b),
{
    lemma_no_collision(names, project, items);
    lemma_expr_kind_plain(names, project, m, a, b);
}

/// The name of a colliding class starts with an upper-case letter where its
/// module starts with a lower-case one, so that it can be the name of a QML
/// type.
pub proof fn law_mangled_names_are_qml_types(module: Seq<char>, name: Seq<char>)
    requires
        module.len() > 0,
        is_ascii_lower(module[0]),
    ensures
        is_ascii_upper(mangled(module, name)[0]),
{
    assert(upper(module[0])[0] == ascii_upper(module[0]));
    assert(capitalized(module)[0] == ascii_upper(module[0]));
    assert(mangled(module, name)[0] == capitalized(module)[0]);
}

/// A class is declared and referred to under one name: that of the table,
/// whether the reference is qualified or stands in the module of the class.
pub proof fn law_references_follow_declarations(
    names: EmitNames,
    project: ProjectInfo,
    items: Seq<Item>,
    module: Seq<char>,
    name: Seq<char>,
    current: Option<Seq<char>>,
)
    requires
        names_of(names, items, project),
        declared_in(items, project, module, name, items.len() as int),
    ensures
        emit_name(items, project, module, name) is Some,
        resolved(names, name, Some(module), current) == emit_name(items, project, module, name),
        resolved(names, name, None, Some(module)) == emit_name(items, project, module, name),
{
    assert(lookup(names.map@, module, name) == emit_name(items, project, module, name));
}

/// A class of a binding keeps its name.
pub proof fn law_bindings_keep_their_names(
    names: EmitNames,
    project: ProjectInfo,
    a: ClassDecl,
    b: ClassDecl,
)
    requires
        module_of_file(a.span.file, project) is None,
        class_decl_renamed(names, project, a, b),
    ensures
        b.name.name@ == a.name.name@,
{
}

} // verus!
