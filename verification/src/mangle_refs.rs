//! The references of a module to classes, and where renaming takes them.

use crate::ast::{
    Block, CaseArm, ClassDecl, ClassMember, DeinitDecl, Element, ElementMember, EnumDecl,
    EnumVariant, Expr, ExprKind, Field, FnDecl, Ident, InitDecl, Item, LetBinding, LetDecl,
    MapEntry, Module, Param, PropertyDecl, SignalDecl, StateField, StateFieldKind, Stmt, StrPart,
    StructDecl, StyleBody, StyleDecl, StyleEntry, TypeExpr, TypeKind, ViewDecl, WidgetDecl,
};
use crate::ast_copy::{same_ident, same_idents};
use crate::mangle::{
    EmitNames, block_renamed, case_arm_renamed, case_arms_renamed, class_count, class_decl_renamed,
    class_member_renamed, class_members_renamed, collides, declared_at, declares_class,
    deinit_decl_renamed, element_member_renamed, element_members_renamed, element_renamed,
    emit_name, enum_decl_renamed, enum_variant_renamed, enum_variants_renamed, expr_kind_renamed,
    expr_renamed, exprs_renamed, field_renamed, fields_renamed, fn_decl_renamed, fn_decls_renamed,
    init_decl_renamed, is_colliding, is_ident, item_renamed, last_name, let_binding_renamed,
    let_decl_renamed, lookup, mangled, map_entries_renamed, map_entry_renamed, member_target,
    module_renamed, names_of, opt_block_renamed, opt_boxed_expr_renamed, opt_expr_renamed,
    opt_let_binding_renamed, opt_type_expr_renamed, param_renamed, params_renamed, path_target,
    property_decl_renamed, resolved, signal_decl_renamed, state_field_kind_renamed,
    state_field_renamed, state_fields_renamed, stmt_renamed, stmts_renamed, str_part_renamed,
    str_parts_renamed, struct_decl_renamed, style_body_renamed, style_decl_renamed,
    style_entries_renamed, style_entry_renamed, type_expr_renamed, type_exprs_renamed,
    type_kind_renamed, view_decl_renamed, widget_decl_renamed,
};
use crate::naming::capitalized;
use crate::project::{module_of_file, ProjectInfo};
use vstd::prelude::*;

verus! {

// ---- references -------------------------------------------------------------------

/// Where a reference stands.
pub enum RefKind {
    /// A written type.
    Type,
    /// A name in an expression.
    Name,
    /// A path in an expression.
    Path,
    /// A member of a name in an expression.
    Member,
    /// The head of an element.
    Head,
    /// The name of a class where it is declared.
    Class,
}

/// What may name a class: the segments as they are written, and the module in
/// which they stand.
pub struct Ref {
    pub kind: RefKind,
    pub module: Option<Seq<char>>,
    pub path: Seq<Seq<char>>,
}

/// The names of segments.
pub open spec fn ident_names(v: Seq<Ident>) -> Seq<Seq<char>> {
    Seq::new(v.len(), |i: int| v[i].name@)
}

/// The module whose class a reference names: the segment before the last, or
/// else the module in which the reference stands.
pub open spec fn owner(x: Ref) -> Option<Seq<char>> {
    if x.path.len() >= 2 {
        Some(x.path[x.path.len() - 2])
    } else {
        x.module
    }
}

/// What the table has for a reference. Types and expressions are looked up only
/// where their last name is one of the colliding ones.
pub open spec fn table_name(names: EmitNames, x: Ref) -> Option<Seq<char>> {
    if x.path.len() == 0 {
        None
    } else if !(x.kind is Head || x.kind is Class) && !is_colliding(names, x.path.last()) {
        None
    } else {
        match owner(x) {
            Some(q) => lookup(names.map@, q, x.path.last()),
            None => None,
        }
    }
}

/// What becomes of a reference: where the table has a name for it, it is that
/// one name, and nothing stands before it; else it stays as it is. A member of
/// a name that is renamed follows the name.
pub open spec fn ref_follows(names: EmitNames, x: Ref, y: Ref) -> bool {
    &&& y.module == x.module
    &&& match table_name(names, x) {
        Some(emit) => match x.kind {
            RefKind::Type | RefKind::Head | RefKind::Class => y.kind == x.kind && y.path
                == seq![emit],
            RefKind::Name => y.kind is Name && y.path == seq![emit],
            RefKind::Path | RefKind::Member => {
                ||| y.kind is Name && y.path == seq![emit]
                ||| y.kind is Member && y.path.len() == 2 && y.path[0] == emit
            },
        },
        None => match x.kind {
            RefKind::Member => {
                &&& y.kind is Member
                &&& y.path.len() == 2
                &&& y.path[1] == x.path[1]
                &&& y.path[0] == match table_name(
                    names,
                    Ref { kind: RefKind::Name, module: x.module, path: seq![x.path[0]] },
                ) {
                    Some(emit) => emit,
                    None => x.path[0],
                }
            },
            _ => y == x,
        },
    }
}

/// One list of references follows another, one by one.
pub open spec fn refs_follow(names: EmitNames, a: Seq<Ref>, b: Seq<Ref>) -> bool {
    &&& a.len() == b.len()
    &&& forall|i: int| 0 <= i < a.len() ==> ref_follows(names, #[trigger] a[i], b[i])
}

// ---- the references of a tree -----------------------------------------------------

pub open spec fn refs_fn_decl(project: ProjectInfo, m: Option<Seq<char>>, a: FnDecl) -> Seq<Ref>
    decreases a, 0nat,
{
    let inner = if m is Some {
        m
    } else {
        module_of_file(a.span.file, project)
    };
    refs_params(project, inner, a.params, a.params@.len())
        + refs_opt_type_expr(project, inner, a.return_ty) + refs_opt_block(project, inner, a.body)
}

pub open spec fn refs_opt_type_expr(project: ProjectInfo, m: Option<Seq<char>>, a: Option<TypeExpr>) -> Seq<Ref>
    decreases a, 0nat,
{
    match a {
        Some(x) => refs_type_expr(project, m, x),
        None => Seq::empty(),
    }
}

pub open spec fn refs_class_members(project: ProjectInfo, m: Option<Seq<char>>, a: Vec<ClassMember>, n: nat) -> Seq<Ref>
    decreases a, n,
{
    if n == 0 || n > a@.len() {
        Seq::empty()
    } else {
        refs_class_members(project, m, a, (n - 1) as nat) + refs_class_member(project, m, a[n - 1])
    }
}

pub open spec fn refs_fields(project: ProjectInfo, m: Option<Seq<char>>, a: Vec<Field>, n: nat) -> Seq<Ref>
    decreases a, n,
{
    if n == 0 || n > a@.len() {
        Seq::empty()
    } else {
        refs_fields(project, m, a, (n - 1) as nat) + refs_field(project, m, a[n - 1])
    }
}

pub open spec fn refs_fn_decls(project: ProjectInfo, m: Option<Seq<char>>, a: Vec<FnDecl>, n: nat) -> Seq<Ref>
    decreases a, n,
{
    if n == 0 || n > a@.len() {
        Seq::empty()
    } else {
        refs_fn_decls(project, m, a, (n - 1) as nat) + refs_fn_decl(project, m, a[n - 1])
    }
}

pub open spec fn refs_enum_variants(project: ProjectInfo, m: Option<Seq<char>>, a: Vec<EnumVariant>, n: nat) -> Seq<Ref>
    decreases a, n,
{
    if n == 0 || n > a@.len() {
        Seq::empty()
    } else {
        refs_enum_variants(project, m, a, (n - 1) as nat) + refs_enum_variant(project, m, a[n - 1])
    }
}

pub open spec fn refs_params(project: ProjectInfo, m: Option<Seq<char>>, a: Vec<Param>, n: nat) -> Seq<Ref>
    decreases a, n,
{
    if n == 0 || n > a@.len() {
        Seq::empty()
    } else {
        refs_params(project, m, a, (n - 1) as nat) + refs_param(project, m, a[n - 1])
    }
}

pub open spec fn refs_state_fields(project: ProjectInfo, m: Option<Seq<char>>, a: Vec<StateField>, n: nat) -> Seq<Ref>
    decreases a, n,
{
    if n == 0 || n > a@.len() {
        Seq::empty()
    } else {
        refs_state_fields(project, m, a, (n - 1) as nat) + refs_state_field(project, m, a[n - 1])
    }
}

pub open spec fn refs_element(project: ProjectInfo, m: Option<Seq<char>>, a: Element) -> Seq<Ref>
    decreases a, 0nat,
{
    seq![Ref { kind: RefKind::Head, module: m, path: ident_names(a.path@).push(a.name.name@) }]
        + refs_element_members(project, m, a.members, a.members@.len())
}

pub open spec fn refs_style_body(project: ProjectInfo, m: Option<Seq<char>>, a: StyleBody) -> Seq<Ref>
    decreases a, 0nat,
{
    match a {
        StyleBody::Lit(x) => refs_style_entries(project, m, x, x@.len()),
        StyleBody::Alias(x) => refs_expr(project, m, x),
    }
}

pub open spec fn refs_type_expr(project: ProjectInfo, m: Option<Seq<char>>, a: TypeExpr) -> Seq<Ref>
    decreases a, 0nat,
{
    refs_type_kind(project, m, a.kind)
}

pub open spec fn refs_expr(project: ProjectInfo, m: Option<Seq<char>>, a: Expr) -> Seq<Ref>
    decreases a, 0nat,
{
    refs_expr_kind(project, m, a.kind)
}

pub open spec fn refs_opt_block(project: ProjectInfo, m: Option<Seq<char>>, a: Option<Block>) -> Seq<Ref>
    decreases a, 0nat,
{
    match a {
        Some(x) => refs_block(project, m, x),
        None => Seq::empty(),
    }
}

pub open spec fn refs_class_member(project: ProjectInfo, m: Option<Seq<char>>, a: ClassMember) -> Seq<Ref>
    decreases a, 0nat,
{
    match a {
        ClassMember::Property(x) => refs_property_decl(project, m, x),
        ClassMember::Signal(x) => refs_signal_decl(project, m, x),
        ClassMember::Fn(x) => refs_fn_decl(project, m, x),
        ClassMember::Slot(x) => refs_fn_decl(project, m, x),
        ClassMember::Field(x) => refs_field(project, m, x),
        ClassMember::Init(x) => refs_init_decl(project, m, x),
        ClassMember::Deinit(x) => refs_deinit_decl(project, m, x),
    }
}

pub open spec fn refs_field(project: ProjectInfo, m: Option<Seq<char>>, a: Field) -> Seq<Ref>
    decreases a, 0nat,
{
    refs_type_expr(project, m, a.ty) + refs_opt_expr(project, m, a.default)
}

pub open spec fn refs_enum_variant(project: ProjectInfo, m: Option<Seq<char>>, a: EnumVariant) -> Seq<Ref>
    decreases a, 0nat,
{
    refs_opt_expr(project, m, a.value) + refs_fields(project, m, a.fields, a.fields@.len())
}

pub open spec fn refs_param(project: ProjectInfo, m: Option<Seq<char>>, a: Param) -> Seq<Ref>
    decreases a, 0nat,
{
    refs_type_expr(project, m, a.ty) + refs_opt_expr(project, m, a.default)
}

pub open spec fn refs_state_field(project: ProjectInfo, m: Option<Seq<char>>, a: StateField) -> Seq<Ref>
    decreases a, 0nat,
{
    refs_state_field_kind(project, m, a.kind) + refs_expr(project, m, a.init_expr)
}

pub open spec fn refs_element_members(project: ProjectInfo, m: Option<Seq<char>>, a: Vec<ElementMember>, n: nat) -> Seq<Ref>
    decreases a, n,
{
    if n == 0 || n > a@.len() {
        Seq::empty()
    } else {
        refs_element_members(project, m, a, (n - 1) as nat) + refs_element_member(project, m, a[n - 1])
    }
}

pub open spec fn refs_style_entries(project: ProjectInfo, m: Option<Seq<char>>, a: Vec<StyleEntry>, n: nat) -> Seq<Ref>
    decreases a, n,
{
    if n == 0 || n > a@.len() {
        Seq::empty()
    } else {
        refs_style_entries(project, m, a, (n - 1) as nat) + refs_style_entry(project, m, a[n - 1])
    }
}

pub open spec fn refs_type_kind(project: ProjectInfo, m: Option<Seq<char>>, a: TypeKind) -> Seq<Ref>
    decreases a, 0nat,
{
    match a {
        TypeKind::Named { path, args } => seq![Ref { kind: RefKind::Type, module: m, path: ident_names(path@) }]
            + refs_type_exprs(project, m, args, args@.len()),
        TypeKind::Nullable(x) => refs_type_expr(project, m, *x),
        TypeKind::ErrorUnion(x) => refs_type_expr(project, m, *x),
        TypeKind::Fn { params, ret, .. } => refs_type_exprs(project, m, params, params@.len())
            + refs_type_expr(project, m, *ret),
        _ => Seq::empty(),
    }
}

pub open spec fn refs_expr_kind(project: ProjectInfo, m: Option<Seq<char>>, a: ExprKind) -> Seq<Ref>
    decreases a, 0nat,
{
    match a {
        ExprKind::Ident(name) => seq![Ref { kind: RefKind::Name, module: m, path: seq![name@] }],
        ExprKind::Path(segments) => seq![Ref { kind: RefKind::Path, module: m, path: ident_names(segments@) }],
        ExprKind::Call { callee, args, block, type_args, .. } => refs_expr(project, m, *callee)
            + refs_exprs(project, m, args, args@.len()) + refs_opt_boxed_expr(project, m, block)
            + refs_type_exprs(project, m, type_args, type_args@.len()),
        ExprKind::MethodCall { receiver, args, block, type_args, .. } => refs_expr(project, m, *receiver)
            + refs_exprs(project, m, args, args@.len()) + refs_opt_boxed_expr(project, m, block)
            + refs_type_exprs(project, m, type_args, type_args@.len()),
        ExprKind::Member { receiver, name } => match receiver.kind {
            ExprKind::Ident(of) => seq![Ref { kind: RefKind::Member, module: m, path: seq![of@, name.name@] }],
            _ => refs_expr(project, m, *receiver),
        },
        ExprKind::SafeMember { receiver, .. } => refs_expr(project, m, *receiver),
        ExprKind::SafeMethodCall { receiver, args, block, type_args, .. } => refs_expr(project, m, *receiver)
            + refs_exprs(project, m, args, args@.len()) + refs_opt_boxed_expr(project, m, block)
            + refs_type_exprs(project, m, type_args, type_args@.len()),
        ExprKind::Index { receiver, index, .. } => refs_expr(project, m, *receiver)
            + refs_expr(project, m, *index),
        ExprKind::Block(x) => refs_block(project, m, x),
        ExprKind::Lambda { params, body, .. } => refs_params(project, m, params, params@.len())
            + refs_block(project, m, body),
        ExprKind::Unary { expr, .. } => refs_expr(project, m, *expr),
        ExprKind::Binary { lhs, rhs, .. } => refs_expr(project, m, *lhs) + refs_expr(project, m, *rhs),
        ExprKind::Try(x) => refs_expr(project, m, *x),
        ExprKind::Await(x) => refs_expr(project, m, *x),
        ExprKind::If { cond, then_b, else_b, let_binding, .. } => refs_expr(project, m, *cond)
            + refs_block(project, m, then_b) + refs_opt_block(project, m, else_b)
            + refs_opt_let_binding(project, m, let_binding),
        ExprKind::Case { scrutinee, arms, .. } => refs_expr(project, m, *scrutinee)
            + refs_case_arms(project, m, arms, arms@.len()),
        ExprKind::Kwarg { value, .. } => refs_expr(project, m, *value),
        ExprKind::Element(x) => refs_element(project, m, x),
        ExprKind::Array(x) => refs_exprs(project, m, x, x@.len()),
        ExprKind::MapLit(x) => refs_map_entries(project, m, x, x@.len()),
        ExprKind::Range { start, end, .. } => refs_expr(project, m, *start) + refs_expr(project, m, *end),
        ExprKind::Str(x) => refs_str_parts(project, m, x, x@.len()),
        _ => Seq::empty(),
    }
}

pub open spec fn refs_block(project: ProjectInfo, m: Option<Seq<char>>, a: Block) -> Seq<Ref>
    decreases a, 0nat,
{
    refs_stmts(project, m, a.stmts, a.stmts@.len()) + refs_opt_boxed_expr(project, m, a.trailing)
}

pub open spec fn refs_property_decl(project: ProjectInfo, m: Option<Seq<char>>, a: PropertyDecl) -> Seq<Ref>
    decreases a, 0nat,
{
    refs_type_expr(project, m, a.ty) + refs_opt_expr(project, m, a.default)
        + refs_opt_expr(project, m, a.binding) + refs_opt_expr(project, m, a.fresh)
}

pub open spec fn refs_signal_decl(project: ProjectInfo, m: Option<Seq<char>>, a: SignalDecl) -> Seq<Ref>
    decreases a, 0nat,
{
    refs_params(project, m, a.params, a.params@.len())
}

pub open spec fn refs_init_decl(project: ProjectInfo, m: Option<Seq<char>>, a: InitDecl) -> Seq<Ref>
    decreases a, 0nat,
{
    refs_params(project, m, a.params, a.params@.len()) + refs_block(project, m, a.body)
}

pub open spec fn refs_deinit_decl(project: ProjectInfo, m: Option<Seq<char>>, a: DeinitDecl) -> Seq<Ref>
    decreases a, 0nat,
{
    refs_block(project, m, a.body)
}

pub open spec fn refs_opt_expr(project: ProjectInfo, m: Option<Seq<char>>, a: Option<Expr>) -> Seq<Ref>
    decreases a, 0nat,
{
    match a {
        Some(x) => refs_expr(project, m, x),
        None => Seq::empty(),
    }
}

pub open spec fn refs_state_field_kind(project: ProjectInfo, m: Option<Seq<char>>, a: StateFieldKind) -> Seq<Ref>
    decreases a, 0nat,
{
    match a {
        StateFieldKind::Property { ty, .. } => refs_type_expr(project, m, ty),
        _ => Seq::empty(),
    }
}

pub open spec fn refs_element_member(project: ProjectInfo, m: Option<Seq<char>>, a: ElementMember) -> Seq<Ref>
    decreases a, 0nat,
{
    match a {
        ElementMember::Property { value, .. } => refs_expr(project, m, value),
        ElementMember::Child(x) => refs_element(project, m, x),
        ElementMember::Stmt(x) => refs_stmt(project, m, x),
    }
}

pub open spec fn refs_style_entry(project: ProjectInfo, m: Option<Seq<char>>, a: StyleEntry) -> Seq<Ref>
    decreases a, 0nat,
{
    refs_expr(project, m, a.value)
}

pub open spec fn refs_type_exprs(project: ProjectInfo, m: Option<Seq<char>>, a: Vec<TypeExpr>, n: nat) -> Seq<Ref>
    decreases a, n,
{
    if n == 0 || n > a@.len() {
        Seq::empty()
    } else {
        refs_type_exprs(project, m, a, (n - 1) as nat) + refs_type_expr(project, m, a[n - 1])
    }
}

pub open spec fn refs_exprs(project: ProjectInfo, m: Option<Seq<char>>, a: Vec<Expr>, n: nat) -> Seq<Ref>
    decreases a, n,
{
    if n == 0 || n > a@.len() {
        Seq::empty()
    } else {
        refs_exprs(project, m, a, (n - 1) as nat) + refs_expr(project, m, a[n - 1])
    }
}

pub open spec fn refs_opt_boxed_expr(project: ProjectInfo, m: Option<Seq<char>>, a: Option<Box<Expr>>) -> Seq<Ref>
    decreases a, 0nat,
{
    match a {
        Some(x) => refs_expr(project, m, *x),
        None => Seq::empty(),
    }
}

pub open spec fn refs_opt_let_binding(project: ProjectInfo, m: Option<Seq<char>>, a: Option<LetBinding>) -> Seq<Ref>
    decreases a, 0nat,
{
    match a {
        Some(x) => refs_let_binding(project, m, x),
        None => Seq::empty(),
    }
}

pub open spec fn refs_case_arms(project: ProjectInfo, m: Option<Seq<char>>, a: Vec<CaseArm>, n: nat) -> Seq<Ref>
    decreases a, n,
{
    if n == 0 || n > a@.len() {
        Seq::empty()
    } else {
        refs_case_arms(project, m, a, (n - 1) as nat) + refs_case_arm(project, m, a[n - 1])
    }
}

pub open spec fn refs_map_entries(project: ProjectInfo, m: Option<Seq<char>>, a: Vec<MapEntry>, n: nat) -> Seq<Ref>
    decreases a, n,
{
    if n == 0 || n > a@.len() {
        Seq::empty()
    } else {
        refs_map_entries(project, m, a, (n - 1) as nat) + refs_map_entry(project, m, a[n - 1])
    }
}

pub open spec fn refs_str_parts(project: ProjectInfo, m: Option<Seq<char>>, a: Vec<StrPart>, n: nat) -> Seq<Ref>
    decreases a, n,
{
    if n == 0 || n > a@.len() {
        Seq::empty()
    } else {
        refs_str_parts(project, m, a, (n - 1) as nat) + refs_str_part(project, m, a[n - 1])
    }
}

pub open spec fn refs_stmts(project: ProjectInfo, m: Option<Seq<char>>, a: Vec<Stmt>, n: nat) -> Seq<Ref>
    decreases a, n,
{
    if n == 0 || n > a@.len() {
        Seq::empty()
    } else {
        refs_stmts(project, m, a, (n - 1) as nat) + refs_stmt(project, m, a[n - 1])
    }
}

pub open spec fn refs_stmt(project: ProjectInfo, m: Option<Seq<char>>, a: Stmt) -> Seq<Ref>
    decreases a, 0nat,
{
    match a {
        Stmt::Let { ty, value, .. } => refs_opt_type_expr(project, m, ty) + refs_expr(project, m, value),
        Stmt::Var { ty, value, .. } => refs_opt_type_expr(project, m, ty) + refs_expr(project, m, value),
        Stmt::Expr(x) => refs_expr(project, m, x),
        Stmt::Return { value, .. } => refs_opt_expr(project, m, value),
        Stmt::Emit { args, .. } => refs_exprs(project, m, args, args@.len()),
        Stmt::Assign { target, value, .. } => refs_expr(project, m, target) + refs_expr(project, m, value),
        Stmt::For { iter, body, .. } => refs_expr(project, m, iter) + refs_block(project, m, body),
        Stmt::While { cond, body, .. } => refs_expr(project, m, cond) + refs_block(project, m, body),
        Stmt::Batch { body, .. } => refs_block(project, m, body),
        _ => Seq::empty(),
    }
}

pub open spec fn refs_let_binding(project: ProjectInfo, m: Option<Seq<char>>, a: LetBinding) -> Seq<Ref>
    decreases a, 0nat,
{
    refs_expr(project, m, *a.value)
}

pub open spec fn refs_case_arm(project: ProjectInfo, m: Option<Seq<char>>, a: CaseArm) -> Seq<Ref>
    decreases a, 0nat,
{
    refs_block(project, m, a.body)
}

pub open spec fn refs_map_entry(project: ProjectInfo, m: Option<Seq<char>>, a: MapEntry) -> Seq<Ref>
    decreases a, 0nat,
{
    refs_expr(project, m, a.key) + refs_expr(project, m, a.value)
}

pub open spec fn refs_str_part(project: ProjectInfo, m: Option<Seq<char>>, a: StrPart) -> Seq<Ref>
    decreases a, 0nat,
{
    match a {
        StrPart::Interp(x) => refs_expr(project, m, *x),
        StrPart::InterpFmt { expr, .. } => refs_expr(project, m, *expr),
        _ => Seq::empty(),
    }
}

pub open spec fn refs_class_decl(project: ProjectInfo, a: ClassDecl) -> Seq<Ref> {
    let m = module_of_file(a.span.file, project);
    seq![Ref { kind: RefKind::Class, module: m, path: seq![a.name.name@] }]
        + (refs_opt_type_expr(project, m, a.super_class)
        + refs_class_members(project, m, a.members, a.members@.len()))
}

pub open spec fn refs_struct_decl(project: ProjectInfo, a: StructDecl) -> Seq<Ref> {
    let m = module_of_file(a.span.file, project);
    refs_fields(project, m, a.fields, a.fields@.len())
        + refs_fn_decls(project, m, a.methods, a.methods@.len())
}

pub open spec fn refs_enum_decl(project: ProjectInfo, a: EnumDecl) -> Seq<Ref> {
    let m = module_of_file(a.span.file, project);
    refs_enum_variants(project, m, a.variants, a.variants@.len())
}

pub open spec fn refs_view_decl(project: ProjectInfo, a: ViewDecl) -> Seq<Ref> {
    let m = module_of_file(a.span.file, project);
    refs_params(project, m, a.params, a.params@.len())
        + refs_state_fields(project, m, a.state_fields, a.state_fields@.len())
        + refs_element(project, m, a.root)
}

pub open spec fn refs_widget_decl(project: ProjectInfo, a: WidgetDecl) -> Seq<Ref> {
    let m = module_of_file(a.span.file, project);
    refs_params(project, m, a.params, a.params@.len())
        + refs_state_fields(project, m, a.state_fields, a.state_fields@.len())
        + refs_element(project, m, a.root)
}

pub open spec fn refs_style_decl(project: ProjectInfo, a: StyleDecl) -> Seq<Ref> {
    let m = module_of_file(a.span.file, project);
    refs_style_body(project, m, a.body)
}

pub open spec fn refs_let_decl(project: ProjectInfo, a: LetDecl) -> Seq<Ref> {
    let m = module_of_file(a.span.file, project);
    refs_type_expr(project, m, a.ty) + refs_expr(project, m, a.value)
}

/// The references of an item. Imports, traits, implementations and flags are
/// kept as they are.
pub open spec fn refs_item(project: ProjectInfo, a: Item) -> Seq<Ref> {
    match a {
        Item::Class(x) => refs_class_decl(project, x),
        Item::Struct(x) => refs_struct_decl(project, x),
        Item::View(x) => refs_view_decl(project, x),
        Item::Widget(x) => refs_widget_decl(project, x),
        Item::Style(x) => refs_style_decl(project, x),
        Item::Let(x) => refs_let_decl(project, x),
        Item::Enum(x) => refs_enum_decl(project, x),
        Item::Fn(x) => refs_fn_decl(project, None, x),
        _ => Seq::empty(),
    }
}

/// The references of the first `n` items.
pub open spec fn refs_items(project: ProjectInfo, items: Seq<Item>, n: int) -> Seq<Ref>
    decreases n,
{
    if n <= 0 {
        Seq::empty()
    } else {
        refs_items(project, items, n - 1) + refs_item(project, items[n - 1])
    }
}

/// The references of a module, in their order.
pub open spec fn refs_module(project: ProjectInfo, a: Module) -> Seq<Ref> {
    refs_items(project, a.items@, a.items@.len() as int)
}

// ---- renaming ---------------------------------------------------------------------

proof fn lemma_follow_concat(
    names: EmitNames,
    a: Seq<Ref>,
    b: Seq<Ref>,
    c: Seq<Ref>,
    d: Seq<Ref>,
)
    requires
        refs_follow(names, a, b),
        refs_follow(names, c, d),
    ensures
        refs_follow(names, a + c, b + d),
{
    assert forall|i: int| 0 <= i < (a + c).len() implies ref_follows(
        names,
        #[trigger] (a + c)[i],
        (b + d)[i],
    ) by {
        if i < a.len() {
            assert((a + c)[i] == a[i]);
        } else {
            assert((a + c)[i] == c[i - a.len()]);
        }
    }
}

proof fn lemma_same_names(a: Vec<Ident>, b: Vec<Ident>)
    requires
        same_idents(a, b),
    ensures
        ident_names(b@) == ident_names(a@),
{
    assert(ident_names(b@) =~= ident_names(a@)) by {
        assert forall|i: int| 0 <= i < a@.len() implies ident_names(b@)[i] == #[trigger] ident_names(
            a@,
        )[i] by {
            assert(same_ident(a[i], b[i]));
        }
    }
}

/// The table has the same for a path and for the reference that it is.
proof fn lemma_ref_path(names: EmitNames, m: Option<Seq<char>>, path: Vec<Ident>)
    ensures
        path_target(names, m, path@) == table_name(
            names,
            Ref { kind: RefKind::Type, module: m, path: ident_names(path@) },
        ),
        path_target(names, m, path@) == table_name(
            names,
            Ref { kind: RefKind::Path, module: m, path: ident_names(path@) },
        ),
{
    let p = ident_names(path@);
    if path@.len() > 0 {
        assert(p.last() == path@.last().name@);
    }
    if path@.len() >= 2 {
        assert(p[p.len() - 2] == path@[path@.len() - 2].name@);
    }
}

/// A member expression whose receiver is a name, or becomes one.
proof fn lemma_refs_member(
    names: EmitNames,
    project: ProjectInfo,
    m: Option<Seq<char>>,
    receiver: Expr,
    name: Ident,
    b: ExprKind,
)
    requires
        match member_target(names, m, receiver, name.name@) {
            Some(emit) => is_ident(b, emit),
            None => match b {
                ExprKind::Member { receiver: receiver2, name: name2 } => {
                    &&& expr_renamed(names, project, m, receiver, *receiver2)
                    &&& same_ident(name, name2)
                },
                _ => false,
            },
        },
    ensures
        receiver.kind is Ident ==> refs_follow(
            names,
            seq![
                Ref {
                    kind: RefKind::Member,
                    module: m,
                    path: seq![receiver.kind->Ident_0@, name.name@],
                },
            ],
            refs_expr_kind(project, m, b),
        ),
        !(receiver.kind is Ident) ==> match b {
            ExprKind::Member { receiver: receiver2, name: name2 } => receiver2.kind is Ident
                ==> refs_follow(names, refs_expr(project, m, receiver), refs_expr_kind(project, m, b)),
            _ => false,
        },
{
    match receiver.kind {
        ExprKind::Ident(of) => {
            let x = Ref { kind: RefKind::Member, module: m, path: seq![of@, name.name@] };
            assert(x.path.last() == name.name@);
            assert(x.path[0] == of@);
            match b {
                ExprKind::Ident(e) => {
                    let y = Ref { kind: RefKind::Name, module: m, path: seq![e@] };
                    assert(ref_follows(names, x, y));
                },
                ExprKind::Member { receiver: receiver2, name: name2 } => {
                    match receiver2.kind {
                        ExprKind::Ident(of2) => {
                            let y = Ref {
                                kind: RefKind::Member,
                                module: m,
                                path: seq![of2@, name2.name@],
                            };
                            let n = Ref { kind: RefKind::Name, module: m, path: seq![of@] };
                            assert(n.path.last() == of@);
                            assert(seq![x.path[0]] =~= n.path);
                            assert(ref_follows(names, x, y));
                        },
                        _ => {},
                    }
                },
                _ => {},
            }
        },
        _ => {
            if let ExprKind::Member { receiver: receiver2, name: name2 } = b {
                if let ExprKind::Ident(e) = receiver2.kind {
                    let y = Ref { kind: RefKind::Member, module: m, path: seq![e@, name2.name@] };
                    match receiver.kind {
                        ExprKind::Path(segments) => {
                            let x = Ref {
                                kind: RefKind::Path,
                                module: m,
                                path: ident_names(segments@),
                            };
                            lemma_ref_path(names, m, segments);
                            assert(ref_follows(names, x, y));
                        },
                        ExprKind::Member { receiver: inner, name: n1 } => {
                            if let ExprKind::Ident(of) = inner.kind {
                                let x = Ref {
                                    kind: RefKind::Member,
                                    module: m,
                                    path: seq![of@, n1.name@],
                                };
                                assert(x.path.last() == n1.name@);
                                assert(x.path[0] == of@);
                                assert(ref_follows(names, x, y));
                            }
                        },
                        _ => {},
                    }
                }
            }
        },
    }
}

proof fn lemma_refs_fn_decl(names: EmitNames, project: ProjectInfo, m: Option<Seq<char>>, a: FnDecl, b: FnDecl)
    requires
        fn_decl_renamed(names, project, m, a, b),
    ensures
        refs_follow(names, refs_fn_decl(project, m, a), refs_fn_decl(project, m, b)),
    decreases a, 0nat,
{
    let inner = if m is Some {
        m
    } else {
        module_of_file(a.span.file, project)
    };
    lemma_refs_params(names, project, inner, a.params, b.params, a.params@.len());
    lemma_refs_opt_type_expr(names, project, inner, a.return_ty, b.return_ty);
    lemma_follow_concat(names, refs_params(project, inner, a.params, a.params@.len()), refs_params(project, inner, b.params, b.params@.len()), refs_opt_type_expr(project, inner, a.return_ty), refs_opt_type_expr(project, inner, b.return_ty));
    lemma_refs_opt_block(names, project, inner, a.body, b.body);
    lemma_follow_concat(names, refs_params(project, inner, a.params, a.params@.len())
        + refs_opt_type_expr(project, inner, a.return_ty), refs_params(project, inner, b.params, b.params@.len())
        + refs_opt_type_expr(project, inner, b.return_ty), refs_opt_block(project, inner, a.body), refs_opt_block(project, inner, b.body));
}

proof fn lemma_refs_opt_type_expr(names: EmitNames, project: ProjectInfo, m: Option<Seq<char>>, a: Option<TypeExpr>, b: Option<TypeExpr>)
    requires
        opt_type_expr_renamed(names, project, m, a, b),
    ensures
        refs_follow(names, refs_opt_type_expr(project, m, a), refs_opt_type_expr(project, m, b)),
    decreases a, 0nat,
{
    match a {
        Some(x) => {
            lemma_refs_type_expr(names, project, m, x, b->0);
        },
        None => {},
    }
}

proof fn lemma_refs_class_members(names: EmitNames, project: ProjectInfo, m: Option<Seq<char>>, a: Vec<ClassMember>, b: Vec<ClassMember>, n: nat)
    requires
        class_members_renamed(names, project, m, a, b),
        n <= a@.len(),
    ensures
        refs_follow(names, refs_class_members(project, m, a, n), refs_class_members(project, m, b, n)),
    decreases a, n,
{
    if n > 0 {
        lemma_refs_class_members(names, project, m, a, b, (n - 1) as nat);
        assert(decreases_to!(a => a[n - 1]));
        assert(class_member_renamed(names, project, m, a[n - 1], b[n - 1]));
        lemma_refs_class_member(names, project, m, a[n - 1], b[n - 1]);
        lemma_follow_concat(names, refs_class_members(project, m, a, (n - 1) as nat), refs_class_members(project, m, b, (n - 1) as nat), refs_class_member(project, m, a[n - 1]), refs_class_member(project, m, b[n - 1]));
    }
}

proof fn lemma_refs_fields(names: EmitNames, project: ProjectInfo, m: Option<Seq<char>>, a: Vec<Field>, b: Vec<Field>, n: nat)
    requires
        fields_renamed(names, project, m, a, b),
        n <= a@.len(),
    ensures
        refs_follow(names, refs_fields(project, m, a, n), refs_fields(project, m, b, n)),
    decreases a, n,
{
    if n > 0 {
        lemma_refs_fields(names, project, m, a, b, (n - 1) as nat);
        assert(decreases_to!(a => a[n - 1]));
        assert(field_renamed(names, project, m, a[n - 1], b[n - 1]));
        lemma_refs_field(names, project, m, a[n - 1], b[n - 1]);
        lemma_follow_concat(names, refs_fields(project, m, a, (n - 1) as nat), refs_fields(project, m, b, (n - 1) as nat), refs_field(project, m, a[n - 1]), refs_field(project, m, b[n - 1]));
    }
}

proof fn lemma_refs_fn_decls(names: EmitNames, project: ProjectInfo, m: Option<Seq<char>>, a: Vec<FnDecl>, b: Vec<FnDecl>, n: nat)
    requires
        fn_decls_renamed(names, project, m, a, b),
        n <= a@.len(),
    ensures
        refs_follow(names, refs_fn_decls(project, m, a, n), refs_fn_decls(project, m, b, n)),
    decreases a, n,
{
    if n > 0 {
        lemma_refs_fn_decls(names, project, m, a, b, (n - 1) as nat);
        assert(decreases_to!(a => a[n - 1]));
        assert(fn_decl_renamed(names, project, m, a[n - 1], b[n - 1]));
        lemma_refs_fn_decl(names, project, m, a[n - 1], b[n - 1]);
        lemma_follow_concat(names, refs_fn_decls(project, m, a, (n - 1) as nat), refs_fn_decls(project, m, b, (n - 1) as nat), refs_fn_decl(project, m, a[n - 1]), refs_fn_decl(project, m, b[n - 1]));
    }
}

proof fn lemma_refs_enum_variants(names: EmitNames, project: ProjectInfo, m: Option<Seq<char>>, a: Vec<EnumVariant>, b: Vec<EnumVariant>, n: nat)
    requires
        enum_variants_renamed(names, project, m, a, b),
        n <= a@.len(),
    ensures
        refs_follow(names, refs_enum_variants(project, m, a, n), refs_enum_variants(project, m, b, n)),
    decreases a, n,
{
    if n > 0 {
        lemma_refs_enum_variants(names, project, m, a, b, (n - 1) as nat);
        assert(decreases_to!(a => a[n - 1]));
        assert(enum_variant_renamed(names, project, m, a[n - 1], b[n - 1]));
        lemma_refs_enum_variant(names, project, m, a[n - 1], b[n - 1]);
        lemma_follow_concat(names, refs_enum_variants(project, m, a, (n - 1) as nat), refs_enum_variants(project, m, b, (n - 1) as nat), refs_enum_variant(project, m, a[n - 1]), refs_enum_variant(project, m, b[n - 1]));
    }
}

proof fn lemma_refs_params(names: EmitNames, project: ProjectInfo, m: Option<Seq<char>>, a: Vec<Param>, b: Vec<Param>, n: nat)
    requires
        params_renamed(names, project, m, a, b),
        n <= a@.len(),
    ensures
        refs_follow(names, refs_params(project, m, a, n), refs_params(project, m, b, n)),
    decreases a, n,
{
    if n > 0 {
        lemma_refs_params(names, project, m, a, b, (n - 1) as nat);
        assert(decreases_to!(a => a[n - 1]));
        assert(param_renamed(names, project, m, a[n - 1], b[n - 1]));
        lemma_refs_param(names, project, m, a[n - 1], b[n - 1]);
        lemma_follow_concat(names, refs_params(project, m, a, (n - 1) as nat), refs_params(project, m, b, (n - 1) as nat), refs_param(project, m, a[n - 1]), refs_param(project, m, b[n - 1]));
    }
}

proof fn lemma_refs_state_fields(names: EmitNames, project: ProjectInfo, m: Option<Seq<char>>, a: Vec<StateField>, b: Vec<StateField>, n: nat)
    requires
        state_fields_renamed(names, project, m, a, b),
        n <= a@.len(),
    ensures
        refs_follow(names, refs_state_fields(project, m, a, n), refs_state_fields(project, m, b, n)),
    decreases a, n,
{
    if n > 0 {
        lemma_refs_state_fields(names, project, m, a, b, (n - 1) as nat);
        assert(decreases_to!(a => a[n - 1]));
        assert(state_field_renamed(names, project, m, a[n - 1], b[n - 1]));
        lemma_refs_state_field(names, project, m, a[n - 1], b[n - 1]);
        lemma_follow_concat(names, refs_state_fields(project, m, a, (n - 1) as nat), refs_state_fields(project, m, b, (n - 1) as nat), refs_state_field(project, m, a[n - 1]), refs_state_field(project, m, b[n - 1]));
    }
}

proof fn lemma_refs_element(names: EmitNames, project: ProjectInfo, m: Option<Seq<char>>, a: Element, b: Element)
    requires
        element_renamed(names, project, m, a, b),
    ensures
        refs_follow(names, refs_element(project, m, a), refs_element(project, m, b)),
    decreases a, 0nat,
{
    lemma_refs_element_members(names, project, m, a.members, b.members, a.members@.len());
    let x = Ref { kind: RefKind::Head, module: m, path: ident_names(a.path@).push(a.name.name@) };
    let y = Ref { kind: RefKind::Head, module: m, path: ident_names(b.path@).push(b.name.name@) };
    assert(x.path.last() == a.name.name@);
    if a.path@.len() > 0 {
        assert(x.path[x.path.len() - 2] == a.path@.last().name@);
    }
    match resolved(names, a.name.name@, last_name(a.path@), m) {
        Some(emit) => {
            assert(y.path =~= seq![emit]);
        },
        None => {
            lemma_same_names(a.path, b.path);
        },
    }
    assert(ref_follows(names, x, y));
    lemma_follow_concat(names, seq![x], seq![y], refs_element_members(project, m, a.members, a.members@.len()), refs_element_members(project, m, b.members, b.members@.len()));
}

proof fn lemma_refs_style_body(names: EmitNames, project: ProjectInfo, m: Option<Seq<char>>, a: StyleBody, b: StyleBody)
    requires
        style_body_renamed(names, project, m, a, b),
    ensures
        refs_follow(names, refs_style_body(project, m, a), refs_style_body(project, m, b)),
    decreases a, 0nat,
{
    match a {
        StyleBody::Lit(x) => {
            if let StyleBody::Lit(y) = b {
                lemma_refs_style_entries(names, project, m, x, y, x@.len());
            }
        },
        StyleBody::Alias(x) => {
            if let StyleBody::Alias(y) = b {
                lemma_refs_expr(names, project, m, x, y);
            }
        },
    }
}

proof fn lemma_refs_type_expr(names: EmitNames, project: ProjectInfo, m: Option<Seq<char>>, a: TypeExpr, b: TypeExpr)
    requires
        type_expr_renamed(names, project, m, a, b),
    ensures
        refs_follow(names, refs_type_expr(project, m, a), refs_type_expr(project, m, b)),
    decreases a, 0nat,
{
    lemma_refs_type_kind(names, project, m, a.kind, b.kind);
}

proof fn lemma_refs_expr(names: EmitNames, project: ProjectInfo, m: Option<Seq<char>>, a: Expr, b: Expr)
    requires
        expr_renamed(names, project, m, a, b),
    ensures
        refs_follow(names, refs_expr(project, m, a), refs_expr(project, m, b)),
    decreases a, 0nat,
{
    lemma_refs_expr_kind(names, project, m, a.kind, b.kind);
}

proof fn lemma_refs_opt_block(names: EmitNames, project: ProjectInfo, m: Option<Seq<char>>, a: Option<Block>, b: Option<Block>)
    requires
        opt_block_renamed(names, project, m, a, b),
    ensures
        refs_follow(names, refs_opt_block(project, m, a), refs_opt_block(project, m, b)),
    decreases a, 0nat,
{
    match a {
        Some(x) => {
            lemma_refs_block(names, project, m, x, b->0);
        },
        None => {},
    }
}

proof fn lemma_refs_class_member(names: EmitNames, project: ProjectInfo, m: Option<Seq<char>>, a: ClassMember, b: ClassMember)
    requires
        class_member_renamed(names, project, m, a, b),
    ensures
        refs_follow(names, refs_class_member(project, m, a), refs_class_member(project, m, b)),
    decreases a, 0nat,
{
    match a {
        ClassMember::Property(x) => {
            if let ClassMember::Property(y) = b {
                lemma_refs_property_decl(names, project, m, x, y);
            }
        },
        ClassMember::Signal(x) => {
            if let ClassMember::Signal(y) = b {
                lemma_refs_signal_decl(names, project, m, x, y);
            }
        },
        ClassMember::Fn(x) => {
            if let ClassMember::Fn(y) = b {
                lemma_refs_fn_decl(names, project, m, x, y);
            }
        },
        ClassMember::Slot(x) => {
            if let ClassMember::Slot(y) = b {
                lemma_refs_fn_decl(names, project, m, x, y);
            }
        },
        ClassMember::Field(x) => {
            if let ClassMember::Field(y) = b {
                lemma_refs_field(names, project, m, x, y);
            }
        },
        ClassMember::Init(x) => {
            if let ClassMember::Init(y) = b {
                lemma_refs_init_decl(names, project, m, x, y);
            }
        },
        ClassMember::Deinit(x) => {
            if let ClassMember::Deinit(y) = b {
                lemma_refs_deinit_decl(names, project, m, x, y);
            }
        },
    }
}

proof fn lemma_refs_field(names: EmitNames, project: ProjectInfo, m: Option<Seq<char>>, a: Field, b: Field)
    requires
        field_renamed(names, project, m, a, b),
    ensures
        refs_follow(names, refs_field(project, m, a), refs_field(project, m, b)),
    decreases a, 0nat,
{
    lemma_refs_type_expr(names, project, m, a.ty, b.ty);
    lemma_refs_opt_expr(names, project, m, a.default, b.default);
    lemma_follow_concat(names, refs_type_expr(project, m, a.ty), refs_type_expr(project, m, b.ty), refs_opt_expr(project, m, a.default), refs_opt_expr(project, m, b.default));
}

proof fn lemma_refs_enum_variant(names: EmitNames, project: ProjectInfo, m: Option<Seq<char>>, a: EnumVariant, b: EnumVariant)
    requires
        enum_variant_renamed(names, project, m, a, b),
    ensures
        refs_follow(names, refs_enum_variant(project, m, a), refs_enum_variant(project, m, b)),
    decreases a, 0nat,
{
    lemma_refs_opt_expr(names, project, m, a.value, b.value);
    lemma_refs_fields(names, project, m, a.fields, b.fields, a.fields@.len());
    lemma_follow_concat(names, refs_opt_expr(project, m, a.value), refs_opt_expr(project, m, b.value), refs_fields(project, m, a.fields, a.fields@.len()), refs_fields(project, m, b.fields, b.fields@.len()));
}

proof fn lemma_refs_param(names: EmitNames, project: ProjectInfo, m: Option<Seq<char>>, a: Param, b: Param)
    requires
        param_renamed(names, project, m, a, b),
    ensures
        refs_follow(names, refs_param(project, m, a), refs_param(project, m, b)),
    decreases a, 0nat,
{
    lemma_refs_type_expr(names, project, m, a.ty, b.ty);
    lemma_refs_opt_expr(names, project, m, a.default, b.default);
    lemma_follow_concat(names, refs_type_expr(project, m, a.ty), refs_type_expr(project, m, b.ty), refs_opt_expr(project, m, a.default), refs_opt_expr(project, m, b.default));
}

proof fn lemma_refs_state_field(names: EmitNames, project: ProjectInfo, m: Option<Seq<char>>, a: StateField, b: StateField)
    requires
        state_field_renamed(names, project, m, a, b),
    ensures
        refs_follow(names, refs_state_field(project, m, a), refs_state_field(project, m, b)),
    decreases a, 0nat,
{
    lemma_refs_state_field_kind(names, project, m, a.kind, b.kind);
    lemma_refs_expr(names, project, m, a.init_expr, b.init_expr);
    lemma_follow_concat(names, refs_state_field_kind(project, m, a.kind), refs_state_field_kind(project, m, b.kind), refs_expr(project, m, a.init_expr), refs_expr(project, m, b.init_expr));
}

proof fn lemma_refs_element_members(names: EmitNames, project: ProjectInfo, m: Option<Seq<char>>, a: Vec<ElementMember>, b: Vec<ElementMember>, n: nat)
    requires
        element_members_renamed(names, project, m, a, b),
        n <= a@.len(),
    ensures
        refs_follow(names, refs_element_members(project, m, a, n), refs_element_members(project, m, b, n)),
    decreases a, n,
{
    if n > 0 {
        lemma_refs_element_members(names, project, m, a, b, (n - 1) as nat);
        assert(decreases_to!(a => a[n - 1]));
        assert(element_member_renamed(names, project, m, a[n - 1], b[n - 1]));
        lemma_refs_element_member(names, project, m, a[n - 1], b[n - 1]);
        lemma_follow_concat(names, refs_element_members(project, m, a, (n - 1) as nat), refs_element_members(project, m, b, (n - 1) as nat), refs_element_member(project, m, a[n - 1]), refs_element_member(project, m, b[n - 1]));
    }
}

proof fn lemma_refs_style_entries(names: EmitNames, project: ProjectInfo, m: Option<Seq<char>>, a: Vec<StyleEntry>, b: Vec<StyleEntry>, n: nat)
    requires
        style_entries_renamed(names, project, m, a, b),
        n <= a@.len(),
    ensures
        refs_follow(names, refs_style_entries(project, m, a, n), refs_style_entries(project, m, b, n)),
    decreases a, n,
{
    if n > 0 {
        lemma_refs_style_entries(names, project, m, a, b, (n - 1) as nat);
        assert(decreases_to!(a => a[n - 1]));
        assert(style_entry_renamed(names, project, m, a[n - 1], b[n - 1]));
        lemma_refs_style_entry(names, project, m, a[n - 1], b[n - 1]);
        lemma_follow_concat(names, refs_style_entries(project, m, a, (n - 1) as nat), refs_style_entries(project, m, b, (n - 1) as nat), refs_style_entry(project, m, a[n - 1]), refs_style_entry(project, m, b[n - 1]));
    }
}

proof fn lemma_refs_type_kind(names: EmitNames, project: ProjectInfo, m: Option<Seq<char>>, a: TypeKind, b: TypeKind)
    requires
        type_kind_renamed(names, project, m, a, b),
    ensures
        refs_follow(names, refs_type_kind(project, m, a), refs_type_kind(project, m, b)),
    decreases a, 0nat,
{
    match a {
        TypeKind::Named { path, args } => {
            if let TypeKind::Named { path: path2, args: args2 } = b {
                lemma_refs_type_exprs(names, project, m, args, args2, args@.len());
                let x = Ref { kind: RefKind::Type, module: m, path: ident_names(path@) };
                let y = Ref { kind: RefKind::Type, module: m, path: ident_names(path2@) };
                lemma_ref_path(names, m, path);
                match path_target(names, m, path@) {
                    Some(emit) => {
                        assert(y.path =~= seq![emit]);
                    },
                    None => {
                        lemma_same_names(path, path2);
                    },
                }
                assert(ref_follows(names, x, y));
                lemma_follow_concat(names, seq![x], seq![y], refs_type_exprs(project, m, args, args@.len()), refs_type_exprs(project, m, args2, args2@.len()));
            }
        },
        TypeKind::Nullable(x) => {
            if let TypeKind::Nullable(y) = b {
                lemma_refs_type_expr(names, project, m, *x, *y);
            }
        },
        TypeKind::ErrorUnion(x) => {
            if let TypeKind::ErrorUnion(y) = b {
                lemma_refs_type_expr(names, project, m, *x, *y);
            }
        },
        TypeKind::Fn { params, ret, .. } => {
            if let TypeKind::Fn { params: params2, ret: ret2, .. } = b {
                lemma_refs_type_exprs(names, project, m, params, params2, params@.len());
                lemma_refs_type_expr(names, project, m, *ret, *ret2);
                lemma_follow_concat(names, refs_type_exprs(project, m, params, params@.len()), refs_type_exprs(project, m, params2, params2@.len()), refs_type_expr(project, m, *ret), refs_type_expr(project, m, *ret2));
            }
        },
        _ => {},
    }
}

proof fn lemma_refs_expr_kind(names: EmitNames, project: ProjectInfo, m: Option<Seq<char>>, a: ExprKind, b: ExprKind)
    requires
        expr_kind_renamed(names, project, m, a, b),
    ensures
        refs_follow(names, refs_expr_kind(project, m, a), refs_expr_kind(project, m, b)),
    decreases a, 0nat,
{
    match a {
        ExprKind::Ident(name) => {
            if let ExprKind::Ident(name2) = b {
                let x = Ref { kind: RefKind::Name, module: m, path: seq![name@] };
                let y = Ref { kind: RefKind::Name, module: m, path: seq![name2@] };
                assert(x.path.last() == name@);
                assert(ref_follows(names, x, y));
            }
        },
        ExprKind::Path(segments) => {
            let x = Ref { kind: RefKind::Path, module: m, path: ident_names(segments@) };
            lemma_ref_path(names, m, segments);
            match b {
                ExprKind::Ident(name2) => {
                    let y = Ref { kind: RefKind::Name, module: m, path: seq![name2@] };
                    assert(ref_follows(names, x, y));
                },
                ExprKind::Path(segments2) => {
                    let y = Ref { kind: RefKind::Path, module: m, path: ident_names(segments2@) };
                    lemma_same_names(segments, segments2);
                    assert(ref_follows(names, x, y));
                },
                _ => {},
            }
        },
        ExprKind::Call { callee, args, block, type_args, .. } => {
            if let ExprKind::Call { callee: callee2, args: args2, block: block2, type_args: type_args2, .. } = b {
                lemma_refs_expr(names, project, m, *callee, *callee2);
                lemma_refs_exprs(names, project, m, args, args2, args@.len());
                lemma_follow_concat(names, refs_expr(project, m, *callee), refs_expr(project, m, *callee2), refs_exprs(project, m, args, args@.len()), refs_exprs(project, m, args2, args2@.len()));
                lemma_refs_opt_boxed_expr(names, project, m, block, block2);
                lemma_follow_concat(names, refs_expr(project, m, *callee)
                    + refs_exprs(project, m, args, args@.len()), refs_expr(project, m, *callee2)
                    + refs_exprs(project, m, args2, args2@.len()), refs_opt_boxed_expr(project, m, block), refs_opt_boxed_expr(project, m, block2));
                lemma_refs_type_exprs(names, project, m, type_args, type_args2, type_args@.len());
                lemma_follow_concat(names, refs_expr(project, m, *callee)
                    + refs_exprs(project, m, args, args@.len())
                    + refs_opt_boxed_expr(project, m, block), refs_expr(project, m, *callee2)
                    + refs_exprs(project, m, args2, args2@.len())
                    + refs_opt_boxed_expr(project, m, block2), refs_type_exprs(project, m, type_args, type_args@.len()), refs_type_exprs(project, m, type_args2, type_args2@.len()));
            }
        },
        ExprKind::MethodCall { receiver, args, block, type_args, .. } => {
            if let ExprKind::MethodCall { receiver: receiver2, args: args2, block: block2, type_args: type_args2, .. } = b {
                lemma_refs_expr(names, project, m, *receiver, *receiver2);
                lemma_refs_exprs(names, project, m, args, args2, args@.len());
                lemma_follow_concat(names, refs_expr(project, m, *receiver), refs_expr(project, m, *receiver2), refs_exprs(project, m, args, args@.len()), refs_exprs(project, m, args2, args2@.len()));
                lemma_refs_opt_boxed_expr(names, project, m, block, block2);
                lemma_follow_concat(names, refs_expr(project, m, *receiver)
                    + refs_exprs(project, m, args, args@.len()), refs_expr(project, m, *receiver2)
                    + refs_exprs(project, m, args2, args2@.len()), refs_opt_boxed_expr(project, m, block), refs_opt_boxed_expr(project, m, block2));
                lemma_refs_type_exprs(names, project, m, type_args, type_args2, type_args@.len());
                lemma_follow_concat(names, refs_expr(project, m, *receiver)
                    + refs_exprs(project, m, args, args@.len())
                    + refs_opt_boxed_expr(project, m, block), refs_expr(project, m, *receiver2)
                    + refs_exprs(project, m, args2, args2@.len())
                    + refs_opt_boxed_expr(project, m, block2), refs_type_exprs(project, m, type_args, type_args@.len()), refs_type_exprs(project, m, type_args2, type_args2@.len()));
            }
        },
        ExprKind::Member { receiver, name } => {
            lemma_refs_member(names, project, m, *receiver, name, b);
            if let ExprKind::Member { receiver: receiver2, name: name2 } = b {
                lemma_refs_expr(names, project, m, *receiver, *receiver2);
            }
        },
        ExprKind::SafeMember { receiver, .. } => {
            if let ExprKind::SafeMember { receiver: receiver2, .. } = b {
                lemma_refs_expr(names, project, m, *receiver, *receiver2);
            }
        },
        ExprKind::SafeMethodCall { receiver, args, block, type_args, .. } => {
            if let ExprKind::SafeMethodCall { receiver: receiver2, args: args2, block: block2, type_args: type_args2, .. } = b {
                lemma_refs_expr(names, project, m, *receiver, *receiver2);
                lemma_refs_exprs(names, project, m, args, args2, args@.len());
                lemma_follow_concat(names, refs_expr(project, m, *receiver), refs_expr(project, m, *receiver2), refs_exprs(project, m, args, args@.len()), refs_exprs(project, m, args2, args2@.len()));
                lemma_refs_opt_boxed_expr(names, project, m, block, block2);
                lemma_follow_concat(names, refs_expr(project, m, *receiver)
                    + refs_exprs(project, m, args, args@.len()), refs_expr(project, m, *receiver2)
                    + refs_exprs(project, m, args2, args2@.len()), refs_opt_boxed_expr(project, m, block), refs_opt_boxed_expr(project, m, block2));
                lemma_refs_type_exprs(names, project, m, type_args, type_args2, type_args@.len());
                lemma_follow_concat(names, refs_expr(project, m, *receiver)
                    + refs_exprs(project, m, args, args@.len())
                    + refs_opt_boxed_expr(project, m, block), refs_expr(project, m, *receiver2)
                    + refs_exprs(project, m, args2, args2@.len())
                    + refs_opt_boxed_expr(project, m, block2), refs_type_exprs(project, m, type_args, type_args@.len()), refs_type_exprs(project, m, type_args2, type_args2@.len()));
            }
        },
        ExprKind::Index { receiver, index, .. } => {
            if let ExprKind::Index { receiver: receiver2, index: index2, .. } = b {
                lemma_refs_expr(names, project, m, *receiver, *receiver2);
                lemma_refs_expr(names, project, m, *index, *index2);
                lemma_follow_concat(names, refs_expr(project, m, *receiver), refs_expr(project, m, *receiver2), refs_expr(project, m, *index), refs_expr(project, m, *index2));
            }
        },
        ExprKind::Block(x) => {
            if let ExprKind::Block(y) = b {
                lemma_refs_block(names, project, m, x, y);
            }
        },
        ExprKind::Lambda { params, body, .. } => {
            if let ExprKind::Lambda { params: params2, body: body2, .. } = b {
                lemma_refs_params(names, project, m, params, params2, params@.len());
                lemma_refs_block(names, project, m, body, body2);
                lemma_follow_concat(names, refs_params(project, m, params, params@.len()), refs_params(project, m, params2, params2@.len()), refs_block(project, m, body), refs_block(project, m, body2));
            }
        },
        ExprKind::Unary { expr, .. } => {
            if let ExprKind::Unary { expr: expr2, .. } = b {
                lemma_refs_expr(names, project, m, *expr, *expr2);
            }
        },
        ExprKind::Binary { lhs, rhs, .. } => {
            if let ExprKind::Binary { lhs: lhs2, rhs: rhs2, .. } = b {
                lemma_refs_expr(names, project, m, *lhs, *lhs2);
                lemma_refs_expr(names, project, m, *rhs, *rhs2);
                lemma_follow_concat(names, refs_expr(project, m, *lhs), refs_expr(project, m, *lhs2), refs_expr(project, m, *rhs), refs_expr(project, m, *rhs2));
            }
        },
        ExprKind::Try(x) => {
            if let ExprKind::Try(y) = b {
                lemma_refs_expr(names, project, m, *x, *y);
            }
        },
        ExprKind::Await(x) => {
            if let ExprKind::Await(y) = b {
                lemma_refs_expr(names, project, m, *x, *y);
            }
        },
        ExprKind::If { cond, then_b, else_b, let_binding, .. } => {
            if let ExprKind::If { cond: cond2, then_b: then_b2, else_b: else_b2, let_binding: let_binding2, .. } = b {
                lemma_refs_expr(names, project, m, *cond, *cond2);
                lemma_refs_block(names, project, m, then_b, then_b2);
                lemma_follow_concat(names, refs_expr(project, m, *cond), refs_expr(project, m, *cond2), refs_block(project, m, then_b), refs_block(project, m, then_b2));
                lemma_refs_opt_block(names, project, m, else_b, else_b2);
                lemma_follow_concat(names, refs_expr(project, m, *cond)
                    + refs_block(project, m, then_b), refs_expr(project, m, *cond2)
                    + refs_block(project, m, then_b2), refs_opt_block(project, m, else_b), refs_opt_block(project, m, else_b2));
                lemma_refs_opt_let_binding(names, project, m, let_binding, let_binding2);
                lemma_follow_concat(names, refs_expr(project, m, *cond)
                    + refs_block(project, m, then_b)
                    + refs_opt_block(project, m, else_b), refs_expr(project, m, *cond2)
                    + refs_block(project, m, then_b2)
                    + refs_opt_block(project, m, else_b2), refs_opt_let_binding(project, m, let_binding), refs_opt_let_binding(project, m, let_binding2));
            }
        },
        ExprKind::Case { scrutinee, arms, .. } => {
            if let ExprKind::Case { scrutinee: scrutinee2, arms: arms2, .. } = b {
                lemma_refs_expr(names, project, m, *scrutinee, *scrutinee2);
                lemma_refs_case_arms(names, project, m, arms, arms2, arms@.len());
                lemma_follow_concat(names, refs_expr(project, m, *scrutinee), refs_expr(project, m, *scrutinee2), refs_case_arms(project, m, arms, arms@.len()), refs_case_arms(project, m, arms2, arms2@.len()));
            }
        },
        ExprKind::Kwarg { value, .. } => {
            if let ExprKind::Kwarg { value: value2, .. } = b {
                lemma_refs_expr(names, project, m, *value, *value2);
            }
        },
        ExprKind::Element(x) => {
            if let ExprKind::Element(y) = b {
                lemma_refs_element(names, project, m, x, y);
            }
        },
        ExprKind::Array(x) => {
            if let ExprKind::Array(y) = b {
                lemma_refs_exprs(names, project, m, x, y, x@.len());
            }
        },
        ExprKind::MapLit(x) => {
            if let ExprKind::MapLit(y) = b {
                lemma_refs_map_entries(names, project, m, x, y, x@.len());
            }
        },
        ExprKind::Range { start, end, .. } => {
            if let ExprKind::Range { start: start2, end: end2, .. } = b {
                lemma_refs_expr(names, project, m, *start, *start2);
                lemma_refs_expr(names, project, m, *end, *end2);
                lemma_follow_concat(names, refs_expr(project, m, *start), refs_expr(project, m, *start2), refs_expr(project, m, *end), refs_expr(project, m, *end2));
            }
        },
        ExprKind::Str(x) => {
            if let ExprKind::Str(y) = b {
                lemma_refs_str_parts(names, project, m, x, y, x@.len());
            }
        },
        _ => {},
    }
}

proof fn lemma_refs_block(names: EmitNames, project: ProjectInfo, m: Option<Seq<char>>, a: Block, b: Block)
    requires
        block_renamed(names, project, m, a, b),
    ensures
        refs_follow(names, refs_block(project, m, a), refs_block(project, m, b)),
    decreases a, 0nat,
{
    lemma_refs_stmts(names, project, m, a.stmts, b.stmts, a.stmts@.len());
    lemma_refs_opt_boxed_expr(names, project, m, a.trailing, b.trailing);
    lemma_follow_concat(names, refs_stmts(project, m, a.stmts, a.stmts@.len()), refs_stmts(project, m, b.stmts, b.stmts@.len()), refs_opt_boxed_expr(project, m, a.trailing), refs_opt_boxed_expr(project, m, b.trailing));
}

proof fn lemma_refs_property_decl(names: EmitNames, project: ProjectInfo, m: Option<Seq<char>>, a: PropertyDecl, b: PropertyDecl)
    requires
        property_decl_renamed(names, project, m, a, b),
    ensures
        refs_follow(names, refs_property_decl(project, m, a), refs_property_decl(project, m, b)),
    decreases a, 0nat,
{
    lemma_refs_type_expr(names, project, m, a.ty, b.ty);
    lemma_refs_opt_expr(names, project, m, a.default, b.default);
    lemma_follow_concat(names, refs_type_expr(project, m, a.ty), refs_type_expr(project, m, b.ty), refs_opt_expr(project, m, a.default), refs_opt_expr(project, m, b.default));
    lemma_refs_opt_expr(names, project, m, a.binding, b.binding);
    lemma_follow_concat(names, refs_type_expr(project, m, a.ty)
        + refs_opt_expr(project, m, a.default), refs_type_expr(project, m, b.ty)
        + refs_opt_expr(project, m, b.default), refs_opt_expr(project, m, a.binding), refs_opt_expr(project, m, b.binding));
    lemma_refs_opt_expr(names, project, m, a.fresh, b.fresh);
    lemma_follow_concat(names, refs_type_expr(project, m, a.ty)
        + refs_opt_expr(project, m, a.default)
        + refs_opt_expr(project, m, a.binding), refs_type_expr(project, m, b.ty)
        + refs_opt_expr(project, m, b.default)
        + refs_opt_expr(project, m, b.binding), refs_opt_expr(project, m, a.fresh), refs_opt_expr(project, m, b.fresh));
}

proof fn lemma_refs_signal_decl(names: EmitNames, project: ProjectInfo, m: Option<Seq<char>>, a: SignalDecl, b: SignalDecl)
    requires
        signal_decl_renamed(names, project, m, a, b),
    ensures
        refs_follow(names, refs_signal_decl(project, m, a), refs_signal_decl(project, m, b)),
    decreases a, 0nat,
{
    lemma_refs_params(names, project, m, a.params, b.params, a.params@.len());
}

proof fn lemma_refs_init_decl(names: EmitNames, project: ProjectInfo, m: Option<Seq<char>>, a: InitDecl, b: InitDecl)
    requires
        init_decl_renamed(names, project, m, a, b),
    ensures
        refs_follow(names, refs_init_decl(project, m, a), refs_init_decl(project, m, b)),
    decreases a, 0nat,
{
    lemma_refs_params(names, project, m, a.params, b.params, a.params@.len());
    lemma_refs_block(names, project, m, a.body, b.body);
    lemma_follow_concat(names, refs_params(project, m, a.params, a.params@.len()), refs_params(project, m, b.params, b.params@.len()), refs_block(project, m, a.body), refs_block(project, m, b.body));
}

proof fn lemma_refs_deinit_decl(names: EmitNames, project: ProjectInfo, m: Option<Seq<char>>, a: DeinitDecl, b: DeinitDecl)
    requires
        deinit_decl_renamed(names, project, m, a, b),
    ensures
        refs_follow(names, refs_deinit_decl(project, m, a), refs_deinit_decl(project, m, b)),
    decreases a, 0nat,
{
    lemma_refs_block(names, project, m, a.body, b.body);
}

proof fn lemma_refs_opt_expr(names: EmitNames, project: ProjectInfo, m: Option<Seq<char>>, a: Option<Expr>, b: Option<Expr>)
    requires
        opt_expr_renamed(names, project, m, a, b),
    ensures
        refs_follow(names, refs_opt_expr(project, m, a), refs_opt_expr(project, m, b)),
    decreases a, 0nat,
{
    match a {
        Some(x) => {
            lemma_refs_expr(names, project, m, x, b->0);
        },
        None => {},
    }
}

proof fn lemma_refs_state_field_kind(names: EmitNames, project: ProjectInfo, m: Option<Seq<char>>, a: StateFieldKind, b: StateFieldKind)
    requires
        state_field_kind_renamed(names, project, m, a, b),
    ensures
        refs_follow(names, refs_state_field_kind(project, m, a), refs_state_field_kind(project, m, b)),
    decreases a, 0nat,
{
    match a {
        StateFieldKind::Property { ty, .. } => {
            if let StateFieldKind::Property { ty: ty2, .. } = b {
                lemma_refs_type_expr(names, project, m, ty, ty2);
            }
        },
        _ => {},
    }
}

proof fn lemma_refs_element_member(names: EmitNames, project: ProjectInfo, m: Option<Seq<char>>, a: ElementMember, b: ElementMember)
    requires
        element_member_renamed(names, project, m, a, b),
    ensures
        refs_follow(names, refs_element_member(project, m, a), refs_element_member(project, m, b)),
    decreases a, 0nat,
{
    match a {
        ElementMember::Property { value, .. } => {
            if let ElementMember::Property { value: value2, .. } = b {
                lemma_refs_expr(names, project, m, value, value2);
            }
        },
        ElementMember::Child(x) => {
            if let ElementMember::Child(y) = b {
                lemma_refs_element(names, project, m, x, y);
            }
        },
        ElementMember::Stmt(x) => {
            if let ElementMember::Stmt(y) = b {
                lemma_refs_stmt(names, project, m, x, y);
            }
        },
    }
}

proof fn lemma_refs_style_entry(names: EmitNames, project: ProjectInfo, m: Option<Seq<char>>, a: StyleEntry, b: StyleEntry)
    requires
        style_entry_renamed(names, project, m, a, b),
    ensures
        refs_follow(names, refs_style_entry(project, m, a), refs_style_entry(project, m, b)),
    decreases a, 0nat,
{
    lemma_refs_expr(names, project, m, a.value, b.value);
}

proof fn lemma_refs_type_exprs(names: EmitNames, project: ProjectInfo, m: Option<Seq<char>>, a: Vec<TypeExpr>, b: Vec<TypeExpr>, n: nat)
    requires
        type_exprs_renamed(names, project, m, a, b),
        n <= a@.len(),
    ensures
        refs_follow(names, refs_type_exprs(project, m, a, n), refs_type_exprs(project, m, b, n)),
    decreases a, n,
{
    if n > 0 {
        lemma_refs_type_exprs(names, project, m, a, b, (n - 1) as nat);
        assert(decreases_to!(a => a[n - 1]));
        assert(type_expr_renamed(names, project, m, a[n - 1], b[n - 1]));
        lemma_refs_type_expr(names, project, m, a[n - 1], b[n - 1]);
        lemma_follow_concat(names, refs_type_exprs(project, m, a, (n - 1) as nat), refs_type_exprs(project, m, b, (n - 1) as nat), refs_type_expr(project, m, a[n - 1]), refs_type_expr(project, m, b[n - 1]));
    }
}

proof fn lemma_refs_exprs(names: EmitNames, project: ProjectInfo, m: Option<Seq<char>>, a: Vec<Expr>, b: Vec<Expr>, n: nat)
    requires
        exprs_renamed(names, project, m, a, b),
        n <= a@.len(),
    ensures
        refs_follow(names, refs_exprs(project, m, a, n), refs_exprs(project, m, b, n)),
    decreases a, n,
{
    if n > 0 {
        lemma_refs_exprs(names, project, m, a, b, (n - 1) as nat);
        assert(decreases_to!(a => a[n - 1]));
        assert(expr_renamed(names, project, m, a[n - 1], b[n - 1]));
        lemma_refs_expr(names, project, m, a[n - 1], b[n - 1]);
        lemma_follow_concat(names, refs_exprs(project, m, a, (n - 1) as nat), refs_exprs(project, m, b, (n - 1) as nat), refs_expr(project, m, a[n - 1]), refs_expr(project, m, b[n - 1]));
    }
}

proof fn lemma_refs_opt_boxed_expr(names: EmitNames, project: ProjectInfo, m: Option<Seq<char>>, a: Option<Box<Expr>>, b: Option<Box<Expr>>)
    requires
        opt_boxed_expr_renamed(names, project, m, a, b),
    ensures
        refs_follow(names, refs_opt_boxed_expr(project, m, a), refs_opt_boxed_expr(project, m, b)),
    decreases a, 0nat,
{
    match a {
        Some(x) => {
            lemma_refs_expr(names, project, m, *x, *b->0);
        },
        None => {},
    }
}

proof fn lemma_refs_opt_let_binding(names: EmitNames, project: ProjectInfo, m: Option<Seq<char>>, a: Option<LetBinding>, b: Option<LetBinding>)
    requires
        opt_let_binding_renamed(names, project, m, a, b),
    ensures
        refs_follow(names, refs_opt_let_binding(project, m, a), refs_opt_let_binding(project, m, b)),
    decreases a, 0nat,
{
    match a {
        Some(x) => {
            lemma_refs_let_binding(names, project, m, x, b->0);
        },
        None => {},
    }
}

proof fn lemma_refs_case_arms(names: EmitNames, project: ProjectInfo, m: Option<Seq<char>>, a: Vec<CaseArm>, b: Vec<CaseArm>, n: nat)
    requires
        case_arms_renamed(names, project, m, a, b),
        n <= a@.len(),
    ensures
        refs_follow(names, refs_case_arms(project, m, a, n), refs_case_arms(project, m, b, n)),
    decreases a, n,
{
    if n > 0 {
        lemma_refs_case_arms(names, project, m, a, b, (n - 1) as nat);
        assert(decreases_to!(a => a[n - 1]));
        assert(case_arm_renamed(names, project, m, a[n - 1], b[n - 1]));
        lemma_refs_case_arm(names, project, m, a[n - 1], b[n - 1]);
        lemma_follow_concat(names, refs_case_arms(project, m, a, (n - 1) as nat), refs_case_arms(project, m, b, (n - 1) as nat), refs_case_arm(project, m, a[n - 1]), refs_case_arm(project, m, b[n - 1]));
    }
}

proof fn lemma_refs_map_entries(names: EmitNames, project: ProjectInfo, m: Option<Seq<char>>, a: Vec<MapEntry>, b: Vec<MapEntry>, n: nat)
    requires
        map_entries_renamed(names, project, m, a, b),
        n <= a@.len(),
    ensures
        refs_follow(names, refs_map_entries(project, m, a, n), refs_map_entries(project, m, b, n)),
    decreases a, n,
{
    if n > 0 {
        lemma_refs_map_entries(names, project, m, a, b, (n - 1) as nat);
        assert(decreases_to!(a => a[n - 1]));
        assert(map_entry_renamed(names, project, m, a[n - 1], b[n - 1]));
        lemma_refs_map_entry(names, project, m, a[n - 1], b[n - 1]);
        lemma_follow_concat(names, refs_map_entries(project, m, a, (n - 1) as nat), refs_map_entries(project, m, b, (n - 1) as nat), refs_map_entry(project, m, a[n - 1]), refs_map_entry(project, m, b[n - 1]));
    }
}

proof fn lemma_refs_str_parts(names: EmitNames, project: ProjectInfo, m: Option<Seq<char>>, a: Vec<StrPart>, b: Vec<StrPart>, n: nat)
    requires
        str_parts_renamed(names, project, m, a, b),
        n <= a@.len(),
    ensures
        refs_follow(names, refs_str_parts(project, m, a, n), refs_str_parts(project, m, b, n)),
    decreases a, n,
{
    if n > 0 {
        lemma_refs_str_parts(names, project, m, a, b, (n - 1) as nat);
        assert(decreases_to!(a => a[n - 1]));
        assert(str_part_renamed(names, project, m, a[n - 1], b[n - 1]));
        lemma_refs_str_part(names, project, m, a[n - 1], b[n - 1]);
        lemma_follow_concat(names, refs_str_parts(project, m, a, (n - 1) as nat), refs_str_parts(project, m, b, (n - 1) as nat), refs_str_part(project, m, a[n - 1]), refs_str_part(project, m, b[n - 1]));
    }
}

proof fn lemma_refs_stmts(names: EmitNames, project: ProjectInfo, m: Option<Seq<char>>, a: Vec<Stmt>, b: Vec<Stmt>, n: nat)
    requires
        stmts_renamed(names, project, m, a, b),
        n <= a@.len(),
    ensures
        refs_follow(names, refs_stmts(project, m, a, n), refs_stmts(project, m, b, n)),
    decreases a, n,
{
    if n > 0 {
        lemma_refs_stmts(names, project, m, a, b, (n - 1) as nat);
        assert(decreases_to!(a => a[n - 1]));
        assert(stmt_renamed(names, project, m, a[n - 1], b[n - 1]));
        lemma_refs_stmt(names, project, m, a[n - 1], b[n - 1]);
        lemma_follow_concat(names, refs_stmts(project, m, a, (n - 1) as nat), refs_stmts(project, m, b, (n - 1) as nat), refs_stmt(project, m, a[n - 1]), refs_stmt(project, m, b[n - 1]));
    }
}

proof fn lemma_refs_stmt(names: EmitNames, project: ProjectInfo, m: Option<Seq<char>>, a: Stmt, b: Stmt)
    requires
        stmt_renamed(names, project, m, a, b),
    ensures
        refs_follow(names, refs_stmt(project, m, a), refs_stmt(project, m, b)),
    decreases a, 0nat,
{
    match a {
        Stmt::Let { ty, value, .. } => {
            if let Stmt::Let { ty: ty2, value: value2, .. } = b {
                lemma_refs_opt_type_expr(names, project, m, ty, ty2);
                lemma_refs_expr(names, project, m, value, value2);
                lemma_follow_concat(names, refs_opt_type_expr(project, m, ty), refs_opt_type_expr(project, m, ty2), refs_expr(project, m, value), refs_expr(project, m, value2));
            }
        },
        Stmt::Var { ty, value, .. } => {
            if let Stmt::Var { ty: ty2, value: value2, .. } = b {
                lemma_refs_opt_type_expr(names, project, m, ty, ty2);
                lemma_refs_expr(names, project, m, value, value2);
                lemma_follow_concat(names, refs_opt_type_expr(project, m, ty), refs_opt_type_expr(project, m, ty2), refs_expr(project, m, value), refs_expr(project, m, value2));
            }
        },
        Stmt::Expr(x) => {
            if let Stmt::Expr(y) = b {
                lemma_refs_expr(names, project, m, x, y);
            }
        },
        Stmt::Return { value, .. } => {
            if let Stmt::Return { value: value2, .. } = b {
                lemma_refs_opt_expr(names, project, m, value, value2);
            }
        },
        Stmt::Emit { args, .. } => {
            if let Stmt::Emit { args: args2, .. } = b {
                lemma_refs_exprs(names, project, m, args, args2, args@.len());
            }
        },
        Stmt::Assign { target, value, .. } => {
            if let Stmt::Assign { target: target2, value: value2, .. } = b {
                lemma_refs_expr(names, project, m, target, target2);
                lemma_refs_expr(names, project, m, value, value2);
                lemma_follow_concat(names, refs_expr(project, m, target), refs_expr(project, m, target2), refs_expr(project, m, value), refs_expr(project, m, value2));
            }
        },
        Stmt::For { iter, body, .. } => {
            if let Stmt::For { iter: iter2, body: body2, .. } = b {
                lemma_refs_expr(names, project, m, iter, iter2);
                lemma_refs_block(names, project, m, body, body2);
                lemma_follow_concat(names, refs_expr(project, m, iter), refs_expr(project, m, iter2), refs_block(project, m, body), refs_block(project, m, body2));
            }
        },
        Stmt::While { cond, body, .. } => {
            if let Stmt::While { cond: cond2, body: body2, .. } = b {
                lemma_refs_expr(names, project, m, cond, cond2);
                lemma_refs_block(names, project, m, body, body2);
                lemma_follow_concat(names, refs_expr(project, m, cond), refs_expr(project, m, cond2), refs_block(project, m, body), refs_block(project, m, body2));
            }
        },
        Stmt::Batch { body, .. } => {
            if let Stmt::Batch { body: body2, .. } = b {
                lemma_refs_block(names, project, m, body, body2);
            }
        },
        _ => {},
    }
}

proof fn lemma_refs_let_binding(names: EmitNames, project: ProjectInfo, m: Option<Seq<char>>, a: LetBinding, b: LetBinding)
    requires
        let_binding_renamed(names, project, m, a, b),
    ensures
        refs_follow(names, refs_let_binding(project, m, a), refs_let_binding(project, m, b)),
    decreases a, 0nat,
{
    lemma_refs_expr(names, project, m, *a.value, *b.value);
}

proof fn lemma_refs_case_arm(names: EmitNames, project: ProjectInfo, m: Option<Seq<char>>, a: CaseArm, b: CaseArm)
    requires
        case_arm_renamed(names, project, m, a, b),
    ensures
        refs_follow(names, refs_case_arm(project, m, a), refs_case_arm(project, m, b)),
    decreases a, 0nat,
{
    lemma_refs_block(names, project, m, a.body, b.body);
}

proof fn lemma_refs_map_entry(names: EmitNames, project: ProjectInfo, m: Option<Seq<char>>, a: MapEntry, b: MapEntry)
    requires
        map_entry_renamed(names, project, m, a, b),
    ensures
        refs_follow(names, refs_map_entry(project, m, a), refs_map_entry(project, m, b)),
    decreases a, 0nat,
{
    lemma_refs_expr(names, project, m, a.key, b.key);
    lemma_refs_expr(names, project, m, a.value, b.value);
    lemma_follow_concat(names, refs_expr(project, m, a.key), refs_expr(project, m, b.key), refs_expr(project, m, a.value), refs_expr(project, m, b.value));
}

proof fn lemma_refs_str_part(names: EmitNames, project: ProjectInfo, m: Option<Seq<char>>, a: StrPart, b: StrPart)
    requires
        str_part_renamed(names, project, m, a, b),
    ensures
        refs_follow(names, refs_str_part(project, m, a), refs_str_part(project, m, b)),
    decreases a, 0nat,
{
    match a {
        StrPart::Interp(x) => {
            if let StrPart::Interp(y) = b {
                lemma_refs_expr(names, project, m, *x, *y);
            }
        },
        StrPart::InterpFmt { expr, .. } => {
            if let StrPart::InterpFmt { expr: expr2, .. } = b {
                lemma_refs_expr(names, project, m, *expr, *expr2);
            }
        },
        _ => {},
    }
}

proof fn lemma_refs_class_decl(names: EmitNames, project: ProjectInfo, a: ClassDecl, b: ClassDecl)
    requires
        class_decl_renamed(names, project, a, b),
    ensures
        refs_follow(names, refs_class_decl(project, a), refs_class_decl(project, b)),
{
    let m = module_of_file(a.span.file, project);
    lemma_refs_opt_type_expr(names, project, m, a.super_class, b.super_class);
    lemma_refs_class_members(names, project, m, a.members, b.members, a.members@.len());
    lemma_follow_concat(names, refs_opt_type_expr(project, m, a.super_class), refs_opt_type_expr(project, m, b.super_class), refs_class_members(project, m, a.members, a.members@.len()), refs_class_members(project, m, b.members, b.members@.len()));
    let x = Ref { kind: RefKind::Class, module: m, path: seq![a.name.name@] };
    let y = Ref { kind: RefKind::Class, module: m, path: seq![b.name.name@] };
    assert(x.path.last() == a.name.name@);
    assert(ref_follows(names, x, y));
    lemma_follow_concat(names, seq![x], seq![y], refs_opt_type_expr(project, m, a.super_class)
        + refs_class_members(project, m, a.members, a.members@.len()), refs_opt_type_expr(project, m, b.super_class)
        + refs_class_members(project, m, b.members, b.members@.len()));
}

proof fn lemma_refs_struct_decl(names: EmitNames, project: ProjectInfo, a: StructDecl, b: StructDecl)
    requires
        struct_decl_renamed(names, project, a, b),
    ensures
        refs_follow(names, refs_struct_decl(project, a), refs_struct_decl(project, b)),
{
    let m = module_of_file(a.span.file, project);
    lemma_refs_fields(names, project, m, a.fields, b.fields, a.fields@.len());
    lemma_refs_fn_decls(names, project, m, a.methods, b.methods, a.methods@.len());
    lemma_follow_concat(names, refs_fields(project, m, a.fields, a.fields@.len()), refs_fields(project, m, b.fields, b.fields@.len()), refs_fn_decls(project, m, a.methods, a.methods@.len()), refs_fn_decls(project, m, b.methods, b.methods@.len()));
}

proof fn lemma_refs_enum_decl(names: EmitNames, project: ProjectInfo, a: EnumDecl, b: EnumDecl)
    requires
        enum_decl_renamed(names, project, a, b),
    ensures
        refs_follow(names, refs_enum_decl(project, a), refs_enum_decl(project, b)),
{
    let m = module_of_file(a.span.file, project);
    lemma_refs_enum_variants(names, project, m, a.variants, b.variants, a.variants@.len());
}

proof fn lemma_refs_view_decl(names: EmitNames, project: ProjectInfo, a: ViewDecl, b: ViewDecl)
    requires
        view_decl_renamed(names, project, a, b),
    ensures
        refs_follow(names, refs_view_decl(project, a), refs_view_decl(project, b)),
{
    let m = module_of_file(a.span.file, project);
    lemma_refs_params(names, project, m, a.params, b.params, a.params@.len());
    lemma_refs_state_fields(names, project, m, a.state_fields, b.state_fields, a.state_fields@.len());
    lemma_follow_concat(names, refs_params(project, m, a.params, a.params@.len()), refs_params(project, m, b.params, b.params@.len()), refs_state_fields(project, m, a.state_fields, a.state_fields@.len()), refs_state_fields(project, m, b.state_fields, b.state_fields@.len()));
    lemma_refs_element(names, project, m, a.root, b.root);
    lemma_follow_concat(names, refs_params(project, m, a.params, a.params@.len())
        + refs_state_fields(project, m, a.state_fields, a.state_fields@.len()), refs_params(project, m, b.params, b.params@.len())
        + refs_state_fields(project, m, b.state_fields, b.state_fields@.len()), refs_element(project, m, a.root), refs_element(project, m, b.root));
}

proof fn lemma_refs_widget_decl(names: EmitNames, project: ProjectInfo, a: WidgetDecl, b: WidgetDecl)
    requires
        widget_decl_renamed(names, project, a, b),
    ensures
        refs_follow(names, refs_widget_decl(project, a), refs_widget_decl(project, b)),
{
    let m = module_of_file(a.span.file, project);
    lemma_refs_params(names, project, m, a.params, b.params, a.params@.len());
    lemma_refs_state_fields(names, project, m, a.state_fields, b.state_fields, a.state_fields@.len());
    lemma_follow_concat(names, refs_params(project, m, a.params, a.params@.len()), refs_params(project, m, b.params, b.params@.len()), refs_state_fields(project, m, a.state_fields, a.state_fields@.len()), refs_state_fields(project, m, b.state_fields, b.state_fields@.len()));
    lemma_refs_element(names, project, m, a.root, b.root);
    lemma_follow_concat(names, refs_params(project, m, a.params, a.params@.len())
        + refs_state_fields(project, m, a.state_fields, a.state_fields@.len()), refs_params(project, m, b.params, b.params@.len())
        + refs_state_fields(project, m, b.state_fields, b.state_fields@.len()), refs_element(project, m, a.root), refs_element(project, m, b.root));
}

proof fn lemma_refs_style_decl(names: EmitNames, project: ProjectInfo, a: StyleDecl, b: StyleDecl)
    requires
        style_decl_renamed(names, project, a, b),
    ensures
        refs_follow(names, refs_style_decl(project, a), refs_style_decl(project, b)),
{
    let m = module_of_file(a.span.file, project);
    lemma_refs_style_body(names, project, m, a.body, b.body);
}

proof fn lemma_refs_let_decl(names: EmitNames, project: ProjectInfo, a: LetDecl, b: LetDecl)
    requires
        let_decl_renamed(names, project, a, b),
    ensures
        refs_follow(names, refs_let_decl(project, a), refs_let_decl(project, b)),
{
    let m = module_of_file(a.span.file, project);
    lemma_refs_type_expr(names, project, m, a.ty, b.ty);
    lemma_refs_expr(names, project, m, a.value, b.value);
    lemma_follow_concat(names, refs_type_expr(project, m, a.ty), refs_type_expr(project, m, b.ty), refs_expr(project, m, a.value), refs_expr(project, m, b.value));
}

proof fn lemma_refs_item(names: EmitNames, project: ProjectInfo, a: Item, b: Item)
    requires
        item_renamed(names, project, a, b),
    ensures
        refs_follow(names, refs_item(project, a), refs_item(project, b)),
{
    match a {
        Item::Class(x) => {
            if let Item::Class(y) = b {
                lemma_refs_class_decl(names, project, x, y);
            }
        },
        Item::Struct(x) => {
            if let Item::Struct(y) = b {
                lemma_refs_struct_decl(names, project, x, y);
            }
        },
        Item::View(x) => {
            if let Item::View(y) = b {
                lemma_refs_view_decl(names, project, x, y);
            }
        },
        Item::Widget(x) => {
            if let Item::Widget(y) = b {
                lemma_refs_widget_decl(names, project, x, y);
            }
        },
        Item::Style(x) => {
            if let Item::Style(y) = b {
                lemma_refs_style_decl(names, project, x, y);
            }
        },
        Item::Let(x) => {
            if let Item::Let(y) = b {
                lemma_refs_let_decl(names, project, x, y);
            }
        },
        Item::Enum(x) => {
            if let Item::Enum(y) = b {
                lemma_refs_enum_decl(names, project, x, y);
            }
        },
        Item::Fn(x) => {
            if let Item::Fn(y) = b {
                lemma_refs_fn_decl(names, project, None, x, y);
            }
        },
        _ => {},
    }
}

proof fn lemma_refs_items(
    names: EmitNames,
    project: ProjectInfo,
    a: Seq<Item>,
    b: Seq<Item>,
    n: int,
)
    requires
        n <= a.len(),
        a.len() == b.len(),
        forall|i: int| 0 <= i < a.len() ==> item_renamed(names, project, #[trigger] a[i], b[i]),
    ensures
        refs_follow(names, refs_items(project, a, n), refs_items(project, b, n)),
    decreases n,
{
    if n > 0 {
        lemma_refs_items(names, project, a, b, n - 1);
        assert(item_renamed(names, project, a[n - 1], b[n - 1]));
        lemma_refs_item(names, project, a[n - 1], b[n - 1]);
        lemma_follow_concat(
            names,
            refs_items(project, a, n - 1),
            refs_items(project, b, n - 1),
            refs_item(project, a[n - 1]),
            refs_item(project, b[n - 1]),
        );
    }
}

/// Renaming a module takes every reference of it where the table says: no type,
/// expression, element or class keeps a name that the table replaces, and
/// nothing else changes.
pub proof fn law_every_reference_is_renamed(
    names: EmitNames,
    project: ProjectInfo,
    a: Module,
    b: Module,
)
    requires
        module_renamed(names, project, a, b),
    ensures
        refs_follow(names, refs_module(project, a), refs_module(project, b)),
{
    lemma_refs_items(names, project, a.items@, b.items@, a.items@.len() as int);
}

proof fn lemma_count_grows(items: Seq<Item>, project: ProjectInfo, name: Seq<char>, i: int, n: int)
    requires
        0 <= i < n,
        declares_class(items, project, i, name),
    ensures
        class_count(items, project, name, n) >= class_count(items, project, name, i) + 1,
    decreases n,
{
    if n - 1 > i {
        lemma_count_grows(items, project, name, i, n - 1);
    }
}

proof fn lemma_count_at_least(items: Seq<Item>, project: ProjectInfo, name: Seq<char>, n: int)
    ensures
        class_count(items, project, name, n) >= 0,
    decreases n,
{
    if n > 0 {
        lemma_count_at_least(items, project, name, n - 1);
    }
}

/// Two classes of one name are more than one.
proof fn lemma_two_collide(items: Seq<Item>, project: ProjectInfo, name: Seq<char>, i: int, j: int)
    requires
        0 <= i < items.len(),
        0 <= j < items.len(),
        i != j,
        declares_class(items, project, i, name),
        declares_class(items, project, j, name),
    ensures
        collides(items, project, name),
{
    let n = items.len() as int;
    let lo = if i < j { i } else { j };
    let hi = if i < j { j } else { i };
    lemma_count_at_least(items, project, name, lo);
    lemma_count_grows(items, project, name, lo, hi);
    lemma_count_grows(items, project, name, hi, n);
}

/// The only class of a name is one.
proof fn lemma_one_is_alone(items: Seq<Item>, project: ProjectInfo, name: Seq<char>, i: int, n: int)
    requires
        n <= items.len(),
        forall|j: int|
            0 <= j < items.len() && j != i ==> !#[trigger] declares_class(items, project, j, name),
    ensures
        class_count(items, project, name, n) <= 1,
        n <= i ==> class_count(items, project, name, n) == 0,
    decreases n,
{
    if n > 0 {
        lemma_one_is_alone(items, project, name, i, n - 1);
    }
}

/// The reference names the class `name` of `module`.
pub open spec fn refers_to(x: Ref, module: Seq<char>, name: Seq<char>) -> bool {
    x.path.len() > 0 && x.path.last() == name && owner(x) == Some(module)
}

/// Classes that share a name are renamed, each with all that refers to it: a
/// type, the head of an element and the class itself are then the one new name,
/// and an expression starts with it.
pub proof fn law_references_follow_their_class(
    names: EmitNames,
    project: ProjectInfo,
    a: Module,
    b: Module,
    i: int,
    j: int,
    k: int,
)
    requires
        names_of(names, a.items@, project),
        module_renamed(names, project, a, b),
        0 <= i < a.items@.len(),
        0 <= j < a.items@.len(),
        i != j,
        a.items@[i] is Class,
        module_of_file(a.items@[i]->Class_0.span.file, project) is Some,
        declares_class(a.items@, project, j, a.items@[i]->Class_0.name.name@),
        0 <= k < refs_module(project, a).len(),
        refers_to(
            refs_module(project, a)[k],
            module_of_file(a.items@[i]->Class_0.span.file, project)->0,
            a.items@[i]->Class_0.name.name@,
        ),
    ensures
        refs_module(project, b).len() == refs_module(project, a).len(),
        b.items@[i] is Class,
        b.items@[i]->Class_0.name.name@ != a.items@[i]->Class_0.name.name@,
        ({
            let x = refs_module(project, a)[k];
            let y = refs_module(project, b)[k];
            &&& y.path.len() > 0
            &&& y.path[0] == b.items@[i]->Class_0.name.name@
            &&& (x.kind is Type || x.kind is Head || x.kind is Class || x.kind is Name) ==> (
            y.path.len() == 1 && y.kind == x.kind)
        }),
{
    let c = a.items@[i]->Class_0;
    let mo = module_of_file(c.span.file, project)->0;
    let n = c.name.name@;
    assert(declares_class(a.items@, project, i, n));
    assert(declared_at(a.items@, project, mo, n, i));
    lemma_two_collide(a.items@, project, n, i, j);
    assert(is_colliding(names, n));
    assert(lookup(names.map@, mo, n) == emit_name(a.items@, project, mo, n));
    law_every_reference_is_renamed(names, project, a, b);
    assert(item_renamed(names, project, a.items@[i], b.items@[i]));
    reveal_strlit("__");
    assert(mangled(mo, n).len() > n.len());
    let x = refs_module(project, a)[k];
    assert(ref_follows(names, x, refs_module(project, b)[k]));
}

/// Classes of one name come out under different names, where their modules
/// differ by more than the case of their first letter.
pub proof fn law_emitted_classes_differ(
    names: EmitNames,
    project: ProjectInfo,
    a: Module,
    b: Module,
    i: int,
    j: int,
)
    requires
        names_of(names, a.items@, project),
        module_renamed(names, project, a, b),
        0 <= i < a.items@.len(),
        0 <= j < a.items@.len(),
        a.items@[i] is Class,
        a.items@[j] is Class,
        a.items@[i]->Class_0.name.name@ == a.items@[j]->Class_0.name.name@,
        module_of_file(a.items@[i]->Class_0.span.file, project) is Some,
        module_of_file(a.items@[j]->Class_0.span.file, project) is Some,
        capitalized(module_of_file(a.items@[i]->Class_0.span.file, project)->0) != capitalized(
            module_of_file(a.items@[j]->Class_0.span.file, project)->0,
        ),
    ensures
        b.items@[i] is Class,
        b.items@[j] is Class,
        b.items@[i]->Class_0.name.name@ != b.items@[j]->Class_0.name.name@,
{
    let n = a.items@[i]->Class_0.name.name@;
    let p = module_of_file(a.items@[i]->Class_0.span.file, project)->0;
    let q = module_of_file(a.items@[j]->Class_0.span.file, project)->0;
    assert(declares_class(a.items@, project, i, n));
    assert(declares_class(a.items@, project, j, n));
    assert(declared_at(a.items@, project, p, n, i));
    assert(declared_at(a.items@, project, q, n, j));
    lemma_two_collide(a.items@, project, n, i, j);
    assert(lookup(names.map@, p, n) == emit_name(a.items@, project, p, n));
    assert(lookup(names.map@, q, n) == emit_name(a.items@, project, q, n));
    assert(item_renamed(names, project, a.items@[i], b.items@[i]));
    assert(item_renamed(names, project, a.items@[j], b.items@[j]));
    crate::mangle_laws::law_mangled_names_differ(p, q, n);
}

/// A class whose name no other has keeps it, whatever else collides, and so do
/// the types and expressions that refer to it.
pub proof fn law_unique_classes_keep_their_names(
    names: EmitNames,
    project: ProjectInfo,
    a: Module,
    b: Module,
    i: int,
    k: int,
)
    requires
        names_of(names, a.items@, project),
        module_renamed(names, project, a, b),
        0 <= i < a.items@.len(),
        a.items@[i] is Class,
        forall|j: int|
            0 <= j < a.items@.len() && j != i ==> !#[trigger] declares_class(
                a.items@,
                project,
                j,
                a.items@[i]->Class_0.name.name@,
            ),
        0 <= k < refs_module(project, a).len(),
        refs_module(project, a)[k].path.len() > 0,
        refs_module(project, a)[k].path.last() == a.items@[i]->Class_0.name.name@,
    ensures
        refs_module(project, b).len() == refs_module(project, a).len(),
        b.items@[i] is Class,
        b.items@[i]->Class_0.name.name@ == a.items@[i]->Class_0.name.name@,
        ({
            let x = refs_module(project, a)[k];
            let y = refs_module(project, b)[k];
            &&& (x.kind is Type || x.kind is Name || x.kind is Path) ==> y == x
            &&& x.kind is Member && x.path.len() == 2 ==> y.path.len() == 2 && y.path[1] == x.path[1]
            &&& x.kind is Head || x.kind is Class ==> y.path.len() > 0 && y.path.last()
                == x.path.last()
        }),
{
    let c = a.items@[i]->Class_0;
    let n = c.name.name@;
    lemma_one_is_alone(a.items@, project, n, i, a.items@.len() as int);
    assert(!collides(a.items@, project, n));
    assert(!is_colliding(names, n));
    law_every_reference_is_renamed(names, project, a, b);
    assert(item_renamed(names, project, a.items@[i], b.items@[i]));
    let x = refs_module(project, a)[k];
    assert(ref_follows(names, x, refs_module(project, b)[k]));
    match module_of_file(c.span.file, project) {
        Some(q) => {
            assert(lookup(names.map@, q, n) == emit_name(a.items@, project, q, n));
        },
        None => {},
    }
    match owner(x) {
        Some(q) => {
            assert(lookup(names.map@, q, n) == emit_name(a.items@, project, q, n));
        },
        None => {},
    }
}

} // verus!
