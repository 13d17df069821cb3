//! Widget state. A `state` field of a widget becomes a property of a
//! synthesized holder class, and the widget holds one object of that class:
//!
//! ```text
//! class __FooState < QObject {
//!   pub prop x : T, notify: :xChanged, default: <init>
//!   pub signal xChanged
//! }
//! widget Foo {
//!   let __cute_state = __FooState()
//!   ...
//! }
//! ```
//!
//! Inside the widget, `x` then means `__cute_state.x`: in its elements, and in
//! the values of its `let` fields. Views keep their state
//! fields: QML has properties of its own.

use crate::ast::{
    Block, CaseArm, ClassDecl, ClassMember, Element, ElementMember, Expr, ExprKind, Ident, Item,
    LetBinding, MapEntry, Module, Param, PropertyDecl, SignalDecl, Span, StateField, StateFieldKind,
    Stmt, StrPart, TypeExpr, TypeKind, WidgetDecl, notify_name, synth_notify_name,
};
use crate::ast_copy::{
    copy_expr, copy_ident, copy_idents, copy_opt_type_expr, copy_pattern, copy_state_field_kind,
    copy_type_expr, copy_type_exprs, same_expr, same_ident, same_idents, same_opt_type_expr,
    same_pattern, same_state_field_kind, same_type_expr, same_type_exprs,
};
use crate::mangle::is_ident;
use crate::text::{contains_string, views};
use vstd::prelude::*;
use vstd::string::*;

verus! {

// ---- references inside a widget -------------------------------------------------

/// `a` is a bare reference to one of the state fields.
pub open spec fn reads_state(props: Seq<Seq<char>>, a: Expr) -> bool {
    match a.kind {
        ExprKind::Ident(name) => props.contains(name@),
        _ => false,
    }
}

/// `b` is `__cute_state.<name>` for the bare name `a`, at the same place.
pub open spec fn is_state_member(a: Expr, b: Expr) -> bool {
    &&& b.span == a.span
    &&& match a.kind {
        ExprKind::Ident(text) => match b.kind {
            ExprKind::Member { receiver, name } => {
                &&& is_ident(receiver.kind, "__cute_state"@)
                &&& receiver.span == a.span
                &&& name.name@ == text@
                &&& name.span == a.span
            },
            _ => false,
        },
        _ => false,
    }
}

fn state_member(name: &String, span: Span) -> (r: Expr)
    ensures
        forall|a: Expr|
            a.span == span && is_ident(a.kind, name@) ==> #[trigger] is_state_member(a, r),
{
    Expr {
        kind: ExprKind::Member {
            receiver: Box::new(Expr { kind: ExprKind::Ident("__cute_state".to_owned()), span }),
            name: Ident { name: name.clone(), span },
        },
        span,
    }
}

pub open spec fn expr_kind_lifted(props: Seq<Seq<char>>, a: ExprKind, b: ExprKind) -> bool
    decreases a,
{
    match a {
        ExprKind::Ident(x) => match b {
            ExprKind::Ident(y) => y@ == x@,
            _ => false,
        },
        ExprKind::Path(x) => match b {
            ExprKind::Path(y) => same_idents(x, y),
            _ => false,
        },
        ExprKind::Call { callee, args, block, type_args } => match b {
            ExprKind::Call { callee: callee2, args: args2, block: block2, type_args: type_args2 } => {
                &&& expr_lifted(props, *callee, *callee2)
                &&& exprs_lifted(props, args, args2)
                &&& opt_boxed_expr_lifted(props, block, block2)
                &&& same_type_exprs(type_args, type_args2)
            },
            _ => false,
        },
        ExprKind::MethodCall { receiver, method, args, block, type_args } => match b {
            ExprKind::MethodCall {
                receiver: receiver2,
                method: method2,
                args: args2,
                block: block2,
                type_args: type_args2,
            } => {
                &&& expr_lifted(props, *receiver, *receiver2)
                &&& same_ident(method, method2)
                &&& exprs_lifted(props, args, args2)
                &&& opt_boxed_expr_lifted(props, block, block2)
                &&& same_type_exprs(type_args, type_args2)
            },
            _ => false,
        },
        ExprKind::Member { receiver, name } => match b {
            ExprKind::Member { receiver: receiver2, name: name2 } => {
                &&& expr_lifted(props, *receiver, *receiver2)
                &&& same_ident(name, name2)
            },
            _ => false,
        },
        ExprKind::SafeMember { receiver, name } => match b {
            ExprKind::SafeMember { receiver: receiver2, name: name2 } => {
                &&& expr_lifted(props, *receiver, *receiver2)
                &&& same_ident(name, name2)
            },
            _ => false,
        },
        ExprKind::SafeMethodCall { receiver, method, args, block, type_args } => match b {
            ExprKind::SafeMethodCall {
                receiver: receiver2,
                method: method2,
                args: args2,
                block: block2,
                type_args: type_args2,
            } => {
                &&& expr_lifted(props, *receiver, *receiver2)
                &&& same_ident(method, method2)
                &&& exprs_lifted(props, args, args2)
                &&& opt_boxed_expr_lifted(props, block, block2)
                &&& same_type_exprs(type_args, type_args2)
            },
            _ => false,
        },
        ExprKind::Index { receiver, index } => match b {
            ExprKind::Index { receiver: receiver2, index: index2 } => {
                &&& expr_lifted(props, *receiver, *receiver2)
                &&& expr_lifted(props, *index, *index2)
            },
            _ => false,
        },
        ExprKind::Block(x) => match b {
            ExprKind::Block(y) => block_lifted(props, x, y),
            _ => false,
        },
        ExprKind::Lambda { params, body } => match b {
            ExprKind::Lambda { params: params2, body: body2 } => {
                &&& params_lifted(props, params, params2)
                &&& block_lifted(props, body, body2)
            },
            _ => false,
        },
        ExprKind::Unary { op, expr } => match b {
            ExprKind::Unary { op: op2, expr: expr2 } => {
                &&& op2 == op
                &&& expr_lifted(props, *expr, *expr2)
            },
            _ => false,
        },
        ExprKind::Binary { op, lhs, rhs } => match b {
            ExprKind::Binary { op: op2, lhs: lhs2, rhs: rhs2 } => {
                &&& op2 == op
                &&& expr_lifted(props, *lhs, *lhs2)
                &&& expr_lifted(props, *rhs, *rhs2)
            },
            _ => false,
        },
        ExprKind::Try(x) => match b {
            ExprKind::Try(y) => expr_lifted(props, *x, *y),
            _ => false,
        },
        ExprKind::Await(x) => match b {
            ExprKind::Await(y) => expr_lifted(props, *x, *y),
            _ => false,
        },
        ExprKind::If { cond, then_b, else_b, let_binding } => match b {
            ExprKind::If { cond: cond2, then_b: then_b2, else_b: else_b2, let_binding: let_binding2 } => {
                &&& expr_lifted(props, *cond, *cond2)
                &&& block_lifted(props, then_b, then_b2)
                &&& opt_block_lifted(props, else_b, else_b2)
                &&& opt_let_binding_lifted(props, let_binding, let_binding2)
            },
            _ => false,
        },
        ExprKind::Case { scrutinee, arms } => match b {
            ExprKind::Case { scrutinee: scrutinee2, arms: arms2 } => {
                &&& expr_lifted(props, *scrutinee, *scrutinee2)
                &&& case_arms_lifted(props, arms, arms2)
            },
            _ => false,
        },
        ExprKind::Kwarg { key, value } => match b {
            ExprKind::Kwarg { key: key2, value: value2 } => {
                &&& same_ident(key, key2)
                &&& expr_lifted(props, *value, *value2)
            },
            _ => false,
        },
        ExprKind::Element(x) => match b {
            ExprKind::Element(y) => element_lifted(props, x, y),
            _ => false,
        },
        ExprKind::Array(x) => match b {
            ExprKind::Array(y) => exprs_lifted(props, x, y),
            _ => false,
        },
        ExprKind::MapLit(x) => match b {
            ExprKind::MapLit(y) => map_entries_lifted(props, x, y),
            _ => false,
        },
        ExprKind::Range { start, end, inclusive } => match b {
            ExprKind::Range { start: start2, end: end2, inclusive: inclusive2 } => {
                &&& expr_lifted(props, *start, *start2)
                &&& expr_lifted(props, *end, *end2)
                &&& inclusive2 == inclusive
            },
            _ => false,
        },
        ExprKind::Str(x) => match b {
            ExprKind::Str(y) => str_parts_lifted(props, x, y),
            _ => false,
        },
        ExprKind::Int(_) => b == a,
        ExprKind::Float(x) => match b {
            ExprKind::Float(y) => y@ == x@,
            _ => false,
        },
        ExprKind::Bool(_) => b == a,
        ExprKind::Nil => b is Nil,
        ExprKind::Sym(x) => match b {
            ExprKind::Sym(y) => y@ == x@,
            _ => false,
        },
        ExprKind::AtIdent(x) => match b {
            ExprKind::AtIdent(y) => y@ == x@,
            _ => false,
        },
        ExprKind::SelfRef => b is SelfRef,
    }
}

pub fn rewrite_expr_kind(props: &Vec<String>, a: &ExprKind) -> (r: ExprKind)
    ensures
        expr_kind_lifted(views(props@), *a, r),
    decreases *a,
{
    match a {
        ExprKind::Ident(x) => ExprKind::Ident(x.clone()),
        ExprKind::Path(x) => ExprKind::Path(copy_idents(x)),
        ExprKind::Call { callee, args, block, type_args } => ExprKind::Call {
            callee: Box::new(rewrite_expr(props, callee)),
            args: rewrite_exprs(props, args),
            block: rewrite_opt_boxed_expr(props, block),
            type_args: copy_type_exprs(type_args),
        },
        ExprKind::MethodCall { receiver, method, args, block, type_args } => ExprKind::MethodCall {
            receiver: Box::new(rewrite_expr(props, receiver)),
            method: copy_ident(method),
            args: rewrite_exprs(props, args),
            block: rewrite_opt_boxed_expr(props, block),
            type_args: copy_type_exprs(type_args),
        },
        ExprKind::Member { receiver, name } => ExprKind::Member {
            receiver: Box::new(rewrite_expr(props, receiver)),
            name: copy_ident(name),
        },
        ExprKind::SafeMember { receiver, name } => ExprKind::SafeMember {
            receiver: Box::new(rewrite_expr(props, receiver)),
            name: copy_ident(name),
        },
        ExprKind::SafeMethodCall { receiver, method, args, block, type_args } => ExprKind::SafeMethodCall {
            receiver: Box::new(rewrite_expr(props, receiver)),
            method: copy_ident(method),
            args: rewrite_exprs(props, args),
            block: rewrite_opt_boxed_expr(props, block),
            type_args: copy_type_exprs(type_args),
        },
        ExprKind::Index { receiver, index } => ExprKind::Index {
            receiver: Box::new(rewrite_expr(props, receiver)),
            index: Box::new(rewrite_expr(props, index)),
        },
        ExprKind::Block(x) => ExprKind::Block(rewrite_block(props, x)),
        ExprKind::Lambda { params, body } => ExprKind::Lambda {
            params: rewrite_params(props, params),
            body: rewrite_block(props, body),
        },
        ExprKind::Unary { op, expr } => ExprKind::Unary {
            op: *op,
            expr: Box::new(rewrite_expr(props, expr)),
        },
        ExprKind::Binary { op, lhs, rhs } => ExprKind::Binary {
            op: *op,
            lhs: Box::new(rewrite_expr(props, lhs)),
            rhs: Box::new(rewrite_expr(props, rhs)),
        },
        ExprKind::Try(x) => ExprKind::Try(Box::new(rewrite_expr(props, x))),
        ExprKind::Await(x) => ExprKind::Await(Box::new(rewrite_expr(props, x))),
        ExprKind::If { cond, then_b, else_b, let_binding } => ExprKind::If {
            cond: Box::new(rewrite_expr(props, cond)),
            then_b: rewrite_block(props, then_b),
            else_b: rewrite_opt_block(props, else_b),
            let_binding: rewrite_opt_let_binding(props, let_binding),
        },
        ExprKind::Case { scrutinee, arms } => ExprKind::Case {
            scrutinee: Box::new(rewrite_expr(props, scrutinee)),
            arms: rewrite_case_arms(props, arms),
        },
        ExprKind::Kwarg { key, value } => ExprKind::Kwarg {
            key: copy_ident(key),
            value: Box::new(rewrite_expr(props, value)),
        },
        ExprKind::Element(x) => ExprKind::Element(rewrite_element(props, x)),
        ExprKind::Array(x) => ExprKind::Array(rewrite_exprs(props, x)),
        ExprKind::MapLit(x) => ExprKind::MapLit(rewrite_map_entries(props, x)),
        ExprKind::Range { start, end, inclusive } => ExprKind::Range {
            start: Box::new(rewrite_expr(props, start)),
            end: Box::new(rewrite_expr(props, end)),
            inclusive: *inclusive,
        },
        ExprKind::Str(x) => ExprKind::Str(rewrite_str_parts(props, x)),
        ExprKind::Int(x) => ExprKind::Int(*x),
        ExprKind::Float(x) => ExprKind::Float(x.clone()),
        ExprKind::Bool(x) => ExprKind::Bool(*x),
        ExprKind::Nil => ExprKind::Nil,
        ExprKind::Sym(x) => ExprKind::Sym(x.clone()),
        ExprKind::AtIdent(x) => ExprKind::AtIdent(x.clone()),
        ExprKind::SelfRef => ExprKind::SelfRef,
    }
}

pub open spec fn element_lifted(props: Seq<Seq<char>>, a: Element, b: Element) -> bool
    decreases a,
{
    &&& same_idents(a.path, b.path)
    &&& same_ident(a.name, b.name)
    &&& element_members_lifted(props, a.members, b.members)
    &&& b.span == a.span
}

pub fn rewrite_element(props: &Vec<String>, a: &Element) -> (r: Element)
    ensures
        element_lifted(views(props@), *a, r),
    decreases *a,
{
    Element {
        path: copy_idents(&a.path),
        name: copy_ident(&a.name),
        members: rewrite_element_members(props, &a.members),
        span: a.span,
    }
}

pub open spec fn expr_lifted(props: Seq<Seq<char>>, a: Expr, b: Expr) -> bool
    decreases a,
{
    if reads_state(props, a) {
        is_state_member(a, b)
    } else {
        &&& expr_kind_lifted(props, a.kind, b.kind)
        &&& b.span == a.span
    }
}

pub fn rewrite_expr(props: &Vec<String>, a: &Expr) -> (r: Expr)
    ensures
        expr_lifted(views(props@), *a, r),
    decreases *a,
{
    match &a.kind {
        ExprKind::Ident(name) => {
            if contains_string(props, name.as_str()) {
                return state_member(name, a.span);
            }
        },
        _ => {},
    }
    Expr { kind: rewrite_expr_kind(props, &a.kind), span: a.span }
}

pub open spec fn exprs_lifted(props: Seq<Seq<char>>, a: Vec<Expr>, b: Vec<Expr>) -> bool
    decreases a,
{
    &&& a@.len() == b@.len()
    &&& forall|i: int| 0 <= i < a@.len() ==> expr_lifted(props, #[trigger] a[i], b[i])
}

pub fn rewrite_exprs(props: &Vec<String>, a: &Vec<Expr>) -> (r: Vec<Expr>)
    ensures
        exprs_lifted(views(props@), *a, r),
    decreases *a,
{
    let mut out: Vec<Expr> = Vec::new();
    let mut i: usize = 0;
    while i < a.len()
        invariant
            i <= a@.len(),
            out@.len() == i,
            forall|j: int| 0 <= j < i ==> expr_lifted(views(props@), #[trigger] a[j], out[j]),
        decreases a@.len() - i,
    {
        assert(decreases_to!(*a => a[i as int]));
        let x = rewrite_expr(props, &a[i]);
        out.push(x);
        i += 1;
    }
    out
}

pub open spec fn opt_boxed_expr_lifted(
    props: Seq<Seq<char>>,
    a: Option<Box<Expr>>,
    b: Option<Box<Expr>>,
) -> bool
    decreases a,
{
    match a {
        Some(x) => b is Some && expr_lifted(props, *x, *b->0),
        None => b is None,
    }
}

pub fn rewrite_opt_boxed_expr(props: &Vec<String>, a: &Option<Box<Expr>>) -> (r: Option<Box<Expr>>)
    ensures
        opt_boxed_expr_lifted(views(props@), *a, r),
    decreases *a,
{
    match a {
        Some(x) => Some(Box::new(rewrite_expr(props, x))),
        None => None,
    }
}

pub open spec fn block_lifted(props: Seq<Seq<char>>, a: Block, b: Block) -> bool
    decreases a,
{
    &&& stmts_lifted(props, a.stmts, b.stmts)
    &&& opt_boxed_expr_lifted(props, a.trailing, b.trailing)
    &&& b.span == a.span
}

pub fn rewrite_block(props: &Vec<String>, a: &Block) -> (r: Block)
    ensures
        block_lifted(views(props@), *a, r),
    decreases *a,
{
    Block {
        stmts: rewrite_stmts(props, &a.stmts),
        trailing: rewrite_opt_boxed_expr(props, &a.trailing),
        span: a.span,
    }
}

pub open spec fn params_lifted(props: Seq<Seq<char>>, a: Vec<Param>, b: Vec<Param>) -> bool
    decreases a,
{
    &&& a@.len() == b@.len()
    &&& forall|i: int| 0 <= i < a@.len() ==> param_lifted(props, #[trigger] a[i], b[i])
}

pub fn rewrite_params(props: &Vec<String>, a: &Vec<Param>) -> (r: Vec<Param>)
    ensures
        params_lifted(views(props@), *a, r),
    decreases *a,
{
    let mut out: Vec<Param> = Vec::new();
    let mut i: usize = 0;
    while i < a.len()
        invariant
            i <= a@.len(),
            out@.len() == i,
            forall|j: int| 0 <= j < i ==> param_lifted(views(props@), #[trigger] a[j], out[j]),
        decreases a@.len() - i,
    {
        assert(decreases_to!(*a => a[i as int]));
        let x = rewrite_param(props, &a[i]);
        out.push(x);
        i += 1;
    }
    out
}

pub open spec fn opt_block_lifted(props: Seq<Seq<char>>, a: Option<Block>, b: Option<Block>) -> bool
    decreases a,
{
    match a {
        Some(x) => b is Some && block_lifted(props, x, b->0),
        None => b is None,
    }
}

pub fn rewrite_opt_block(props: &Vec<String>, a: &Option<Block>) -> (r: Option<Block>)
    ensures
        opt_block_lifted(views(props@), *a, r),
    decreases *a,
{
    match a {
        Some(x) => Some(rewrite_block(props, x)),
        None => None,
    }
}

pub open spec fn opt_let_binding_lifted(
    props: Seq<Seq<char>>,
    a: Option<LetBinding>,
    b: Option<LetBinding>,
) -> bool
    decreases a,
{
    match a {
        Some(x) => b is Some && let_binding_lifted(props, x, b->0),
        None => b is None,
    }
}

pub fn rewrite_opt_let_binding(
    props: &Vec<String>,
    a: &Option<LetBinding>,
) -> (r: Option<LetBinding>)
    ensures
        opt_let_binding_lifted(views(props@), *a, r),
    decreases *a,
{
    match a {
        Some(x) => Some(rewrite_let_binding(props, x)),
        None => None,
    }
}

pub open spec fn case_arms_lifted(props: Seq<Seq<char>>, a: Vec<CaseArm>, b: Vec<CaseArm>) -> bool
    decreases a,
{
    &&& a@.len() == b@.len()
    &&& forall|i: int| 0 <= i < a@.len() ==> case_arm_lifted(props, #[trigger] a[i], b[i])
}

pub fn rewrite_case_arms(props: &Vec<String>, a: &Vec<CaseArm>) -> (r: Vec<CaseArm>)
    ensures
        case_arms_lifted(views(props@), *a, r),
    decreases *a,
{
    let mut out: Vec<CaseArm> = Vec::new();
    let mut i: usize = 0;
    while i < a.len()
        invariant
            i <= a@.len(),
            out@.len() == i,
            forall|j: int| 0 <= j < i ==> case_arm_lifted(views(props@), #[trigger] a[j], out[j]),
        decreases a@.len() - i,
    {
        assert(decreases_to!(*a => a[i as int]));
        let x = rewrite_case_arm(props, &a[i]);
        out.push(x);
        i += 1;
    }
    out
}

pub open spec fn map_entries_lifted(
    props: Seq<Seq<char>>,
    a: Vec<MapEntry>,
    b: Vec<MapEntry>,
) -> bool
    decreases a,
{
    &&& a@.len() == b@.len()
    &&& forall|i: int| 0 <= i < a@.len() ==> map_entry_lifted(props, #[trigger] a[i], b[i])
}

pub fn rewrite_map_entries(props: &Vec<String>, a: &Vec<MapEntry>) -> (r: Vec<MapEntry>)
    ensures
        map_entries_lifted(views(props@), *a, r),
    decreases *a,
{
    let mut out: Vec<MapEntry> = Vec::new();
    let mut i: usize = 0;
    while i < a.len()
        invariant
            i <= a@.len(),
            out@.len() == i,
            forall|j: int| 0 <= j < i ==> map_entry_lifted(views(props@), #[trigger] a[j], out[j]),
        decreases a@.len() - i,
    {
        assert(decreases_to!(*a => a[i as int]));
        let x = rewrite_map_entry(props, &a[i]);
        out.push(x);
        i += 1;
    }
    out
}

pub open spec fn str_parts_lifted(props: Seq<Seq<char>>, a: Vec<StrPart>, b: Vec<StrPart>) -> bool
    decreases a,
{
    &&& a@.len() == b@.len()
    &&& forall|i: int| 0 <= i < a@.len() ==> str_part_lifted(props, #[trigger] a[i], b[i])
}

pub fn rewrite_str_parts(props: &Vec<String>, a: &Vec<StrPart>) -> (r: Vec<StrPart>)
    ensures
        str_parts_lifted(views(props@), *a, r),
    decreases *a,
{
    let mut out: Vec<StrPart> = Vec::new();
    let mut i: usize = 0;
    while i < a.len()
        invariant
            i <= a@.len(),
            out@.len() == i,
            forall|j: int| 0 <= j < i ==> str_part_lifted(views(props@), #[trigger] a[j], out[j]),
        decreases a@.len() - i,
    {
        assert(decreases_to!(*a => a[i as int]));
        let x = rewrite_str_part(props, &a[i]);
        out.push(x);
        i += 1;
    }
    out
}

pub open spec fn element_members_lifted(
    props: Seq<Seq<char>>,
    a: Vec<ElementMember>,
    b: Vec<ElementMember>,
) -> bool
    decreases a,
{
    &&& a@.len() == b@.len()
    &&& forall|i: int| 0 <= i < a@.len() ==> element_member_lifted(props, #[trigger] a[i], b[i])
}

pub fn rewrite_element_members(
    props: &Vec<String>,
    a: &Vec<ElementMember>,
) -> (r: Vec<ElementMember>)
    ensures
        element_members_lifted(views(props@), *a, r),
    decreases *a,
{
    let mut out: Vec<ElementMember> = Vec::new();
    let mut i: usize = 0;
    while i < a.len()
        invariant
            i <= a@.len(),
            out@.len() == i,
            forall|j: int| 0 <= j < i ==> element_member_lifted(views(props@), #[trigger] a[j], out[j]),
        decreases a@.len() - i,
    {
        assert(decreases_to!(*a => a[i as int]));
        let x = rewrite_element_member(props, &a[i]);
        out.push(x);
        i += 1;
    }
    out
}

pub open spec fn stmts_lifted(props: Seq<Seq<char>>, a: Vec<Stmt>, b: Vec<Stmt>) -> bool
    decreases a,
{
    &&& a@.len() == b@.len()
    &&& forall|i: int| 0 <= i < a@.len() ==> stmt_lifted(props, #[trigger] a[i], b[i])
}

pub fn rewrite_stmts(props: &Vec<String>, a: &Vec<Stmt>) -> (r: Vec<Stmt>)
    ensures
        stmts_lifted(views(props@), *a, r),
    decreases *a,
{
    let mut out: Vec<Stmt> = Vec::new();
    let mut i: usize = 0;
    while i < a.len()
        invariant
            i <= a@.len(),
            out@.len() == i,
            forall|j: int| 0 <= j < i ==> stmt_lifted(views(props@), #[trigger] a[j], out[j]),
        decreases a@.len() - i,
    {
        assert(decreases_to!(*a => a[i as int]));
        let x = rewrite_stmt(props, &a[i]);
        out.push(x);
        i += 1;
    }
    out
}

pub open spec fn param_lifted(props: Seq<Seq<char>>, a: Param, b: Param) -> bool
    decreases a,
{
    &&& same_ident(a.name, b.name)
    &&& same_type_expr(a.ty, b.ty)
    &&& opt_expr_lifted(props, a.default, b.default)
    &&& b.is_escaping == a.is_escaping
    &&& b.is_consuming == a.is_consuming
    &&& b.span == a.span
}

pub fn rewrite_param(props: &Vec<String>, a: &Param) -> (r: Param)
    ensures
        param_lifted(views(props@), *a, r),
    decreases *a,
{
    Param {
        name: copy_ident(&a.name),
        ty: copy_type_expr(&a.ty),
        default: rewrite_opt_expr(props, &a.default),
        is_escaping: a.is_escaping,
        is_consuming: a.is_consuming,
        span: a.span,
    }
}

pub open spec fn let_binding_lifted(props: Seq<Seq<char>>, a: LetBinding, b: LetBinding) -> bool
    decreases a,
{
    &&& same_pattern(a.pattern, b.pattern)
    &&& expr_lifted(props, *a.value, *b.value)
}

pub fn rewrite_let_binding(props: &Vec<String>, a: &LetBinding) -> (r: LetBinding)
    ensures
        let_binding_lifted(views(props@), *a, r),
    decreases *a,
{
    LetBinding {
        pattern: copy_pattern(&a.pattern),
        value: Box::new(rewrite_expr(props, &a.value)),
    }
}

pub open spec fn case_arm_lifted(props: Seq<Seq<char>>, a: CaseArm, b: CaseArm) -> bool
    decreases a,
{
    &&& same_pattern(a.pattern, b.pattern)
    &&& block_lifted(props, a.body, b.body)
    &&& b.span == a.span
}

pub fn rewrite_case_arm(props: &Vec<String>, a: &CaseArm) -> (r: CaseArm)
    ensures
        case_arm_lifted(views(props@), *a, r),
    decreases *a,
{
    CaseArm {
        pattern: copy_pattern(&a.pattern),
        body: rewrite_block(props, &a.body),
        span: a.span,
    }
}

pub open spec fn map_entry_lifted(props: Seq<Seq<char>>, a: MapEntry, b: MapEntry) -> bool
    decreases a,
{
    &&& expr_lifted(props, a.key, b.key)
    &&& expr_lifted(props, a.value, b.value)
}

pub fn rewrite_map_entry(props: &Vec<String>, a: &MapEntry) -> (r: MapEntry)
    ensures
        map_entry_lifted(views(props@), *a, r),
    decreases *a,
{
    MapEntry {
        key: rewrite_expr(props, &a.key),
        value: rewrite_expr(props, &a.value),
    }
}

pub open spec fn str_part_lifted(props: Seq<Seq<char>>, a: StrPart, b: StrPart) -> bool
    decreases a,
{
    match a {
        StrPart::Text(x) => match b {
            StrPart::Text(y) => y@ == x@,
            _ => false,
        },
        StrPart::Interp(x) => match b {
            StrPart::Interp(y) => expr_lifted(props, *x, *y),
            _ => false,
        },
        StrPart::InterpFmt { expr, format_spec } => match b {
            StrPart::InterpFmt { expr: expr2, format_spec: format_spec2 } => {
                &&& expr_lifted(props, *expr, *expr2)
                &&& format_spec2@ == format_spec@
            },
            _ => false,
        },
    }
}

pub fn rewrite_str_part(props: &Vec<String>, a: &StrPart) -> (r: StrPart)
    ensures
        str_part_lifted(views(props@), *a, r),
    decreases *a,
{
    match a {
        StrPart::Text(x) => StrPart::Text(x.clone()),
        StrPart::Interp(x) => StrPart::Interp(Box::new(rewrite_expr(props, x))),
        StrPart::InterpFmt { expr, format_spec } => StrPart::InterpFmt {
            expr: Box::new(rewrite_expr(props, expr)),
            format_spec: format_spec.clone(),
        },
    }
}

pub open spec fn element_member_lifted(
    props: Seq<Seq<char>>,
    a: ElementMember,
    b: ElementMember,
) -> bool
    decreases a,
{
    match a {
        ElementMember::Property { key, value, span } => match b {
            ElementMember::Property { key: key2, value: value2, span: span2 } => {
                &&& key2@ == key@
                &&& expr_lifted(props, value, value2)
                &&& span2 == span
            },
            _ => false,
        },
        ElementMember::Child(x) => match b {
            ElementMember::Child(y) => element_lifted(props, x, y),
            _ => false,
        },
        ElementMember::Stmt(x) => match b {
            ElementMember::Stmt(y) => stmt_lifted(props, x, y),
            _ => false,
        },
    }
}

pub fn rewrite_element_member(props: &Vec<String>, a: &ElementMember) -> (r: ElementMember)
    ensures
        element_member_lifted(views(props@), *a, r),
    decreases *a,
{
    match a {
        ElementMember::Property { key, value, span } => ElementMember::Property {
            key: key.clone(),
            value: rewrite_expr(props, value),
            span: *span,
        },
        ElementMember::Child(x) => ElementMember::Child(rewrite_element(props, x)),
        ElementMember::Stmt(x) => ElementMember::Stmt(rewrite_stmt(props, x)),
    }
}

pub open spec fn stmt_lifted(props: Seq<Seq<char>>, a: Stmt, b: Stmt) -> bool
    decreases a,
{
    match a {
        Stmt::Let { name, ty, value, span, block_id } => match b {
            Stmt::Let { name: name2, ty: ty2, value: value2, span: span2, block_id: block_id2 } => {
                &&& same_ident(name, name2)
                &&& same_opt_type_expr(ty, ty2)
                &&& expr_lifted(props, value, value2)
                &&& span2 == span
                &&& block_id2 == block_id
            },
            _ => false,
        },
        Stmt::Var { name, ty, value, span, block_id } => match b {
            Stmt::Var { name: name2, ty: ty2, value: value2, span: span2, block_id: block_id2 } => {
                &&& same_ident(name, name2)
                &&& same_opt_type_expr(ty, ty2)
                &&& expr_lifted(props, value, value2)
                &&& span2 == span
                &&& block_id2 == block_id
            },
            _ => false,
        },
        Stmt::Expr(x) => match b {
            Stmt::Expr(y) => expr_lifted(props, x, y),
            _ => false,
        },
        Stmt::Return { value, span } => match b {
            Stmt::Return { value: value2, span: span2 } => {
                &&& opt_expr_lifted(props, value, value2)
                &&& span2 == span
            },
            _ => false,
        },
        Stmt::Emit { signal, args, span } => match b {
            Stmt::Emit { signal: signal2, args: args2, span: span2 } => {
                &&& same_ident(signal, signal2)
                &&& exprs_lifted(props, args, args2)
                &&& span2 == span
            },
            _ => false,
        },
        Stmt::Assign { target, op, value, span } => match b {
            Stmt::Assign { target: target2, op: op2, value: value2, span: span2 } => {
                &&& expr_lifted(props, target, target2)
                &&& op2 == op
                &&& expr_lifted(props, value, value2)
                &&& span2 == span
            },
            _ => false,
        },
        Stmt::For { binding, iter, body, span } => match b {
            Stmt::For { binding: binding2, iter: iter2, body: body2, span: span2 } => {
                &&& same_ident(binding, binding2)
                &&& expr_lifted(props, iter, iter2)
                &&& block_lifted(props, body, body2)
                &&& span2 == span
            },
            _ => false,
        },
        Stmt::While { cond, body, span } => match b {
            Stmt::While { cond: cond2, body: body2, span: span2 } => {
                &&& expr_lifted(props, cond, cond2)
                &&& block_lifted(props, body, body2)
                &&& span2 == span
            },
            _ => false,
        },
        Stmt::Break { .. } => b == a,
        Stmt::Continue { .. } => b == a,
        Stmt::Batch { body, span } => match b {
            Stmt::Batch { body: body2, span: span2 } => {
                &&& block_lifted(props, body, body2)
                &&& span2 == span
            },
            _ => false,
        },
    }
}

pub fn rewrite_stmt(props: &Vec<String>, a: &Stmt) -> (r: Stmt)
    ensures
        stmt_lifted(views(props@), *a, r),
    decreases *a,
{
    match a {
        Stmt::Let { name, ty, value, span, block_id } => Stmt::Let {
            name: copy_ident(name),
            ty: copy_opt_type_expr(ty),
            value: rewrite_expr(props, value),
            span: *span,
            block_id: *block_id,
        },
        Stmt::Var { name, ty, value, span, block_id } => Stmt::Var {
            name: copy_ident(name),
            ty: copy_opt_type_expr(ty),
            value: rewrite_expr(props, value),
            span: *span,
            block_id: *block_id,
        },
        Stmt::Expr(x) => Stmt::Expr(rewrite_expr(props, x)),
        Stmt::Return { value, span } => Stmt::Return {
            value: rewrite_opt_expr(props, value),
            span: *span,
        },
        Stmt::Emit { signal, args, span } => Stmt::Emit {
            signal: copy_ident(signal),
            args: rewrite_exprs(props, args),
            span: *span,
        },
        Stmt::Assign { target, op, value, span } => Stmt::Assign {
            target: rewrite_expr(props, target),
            op: *op,
            value: rewrite_expr(props, value),
            span: *span,
        },
        Stmt::For { binding, iter, body, span } => Stmt::For {
            binding: copy_ident(binding),
            iter: rewrite_expr(props, iter),
            body: rewrite_block(props, body),
            span: *span,
        },
        Stmt::While { cond, body, span } => Stmt::While {
            cond: rewrite_expr(props, cond),
            body: rewrite_block(props, body),
            span: *span,
        },
        Stmt::Break { span } => Stmt::Break {
            span: *span,
        },
        Stmt::Continue { span } => Stmt::Continue {
            span: *span,
        },
        Stmt::Batch { body, span } => Stmt::Batch {
            body: rewrite_block(props, body),
            span: *span,
        },
    }
}

pub open spec fn opt_expr_lifted(props: Seq<Seq<char>>, a: Option<Expr>, b: Option<Expr>) -> bool
    decreases a,
{
    match a {
        Some(x) => b is Some && expr_lifted(props, x, b->0),
        None => b is None,
    }
}

pub fn rewrite_opt_expr(props: &Vec<String>, a: &Option<Expr>) -> (r: Option<Expr>)
    ensures
        opt_expr_lifted(views(props@), *a, r),
    decreases *a,
{
    match a {
        Some(x) => Some(rewrite_expr(props, x)),
        None => None,
    }
}

// ---- the holder class ----------------------------------------------------------

/// The `state` fields among the first `n`.
pub open spec fn prop_fields(fields: Seq<StateField>, n: int) -> Seq<StateField>
    decreases n,
{
    if n <= 0 {
        Seq::empty()
    } else if fields[n - 1].kind is Property {
        prop_fields(fields, n - 1).push(fields[n - 1])
    } else {
        prop_fields(fields, n - 1)
    }
}

/// The `let` fields among the first `n`.
pub open spec fn object_fields(fields: Seq<StateField>, n: int) -> Seq<StateField>
    decreases n,
{
    if n <= 0 {
        Seq::empty()
    } else if fields[n - 1].kind is Object {
        object_fields(fields, n - 1).push(fields[n - 1])
    } else {
        object_fields(fields, n - 1)
    }
}

/// The names of fields.
pub open spec fn field_names(fields: Seq<StateField>) -> Seq<Seq<char>> {
    Seq::new(fields.len(), |i: int| fields[i].name.name@)
}

/// The name of a widget's holder class.
pub open spec fn holder_name(widget: Seq<char>) -> Seq<char> {
    "__"@ + widget + "State"@
}

/// The type `QObject`.
pub open spec fn is_qobject_type(t: Option<TypeExpr>, span: Span) -> bool {
    match t {
        Some(t) => {
            &&& t.span == span
            &&& match t.kind {
                TypeKind::Named { path, args } => {
                    &&& args@.len() == 0
                    &&& path@.len() == 1
                    &&& path[0].name@ == "QObject"@
                    &&& path[0].span == span
                },
                _ => false,
            }
        },
        None => false,
    }
}

/// The type `QObject`, written at `span`.
pub fn qobject_type(span: Span) -> (r: TypeExpr)
    ensures
        is_qobject_type(Some(r), span),
{
    let mut path: Vec<Ident> = Vec::new();
    path.push(Ident { name: "QObject".to_owned(), span });
    TypeExpr { kind: TypeKind::Named { path, args: Vec::new() }, span }
}

/// `p` is a public property with the name, type and initial value of `sf`,
/// announced by the signal `<name>Changed`.
pub open spec fn is_state_property(sf: StateField, p: PropertyDecl) -> bool {
    &&& p.name.name@ == sf.name.name@
    &&& p.name.span == sf.name.span
    &&& match sf.kind {
        StateFieldKind::Property { ty } => same_type_expr(ty, p.ty),
        StateFieldKind::Object => false,
    }
    &&& is_notify_name(sf, p.notify)
    &&& match p.default {
        Some(d) => same_expr(sf.init_expr, d),
        None => false,
    }
    &&& p.is_pub && !p.bindable && !p.model && !p.constant
    &&& p.binding is None && p.fresh is None && p.block_id is None
    &&& p.span == sf.span
}

/// `<name>Changed`, at the field's place.
pub open spec fn is_notify_name(sf: StateField, name: Option<Ident>) -> bool {
    match name {
        Some(i) => i.name@ == notify_name(sf.name.name@) && i.span == sf.span,
        None => false,
    }
}

/// `s` is the public signal `<name>Changed` without parameters.
pub open spec fn is_state_signal(sf: StateField, s: SignalDecl) -> bool {
    &&& is_notify_name(sf, Some(s.name))
    &&& s.params@.len() == 0
    &&& s.is_pub
    &&& s.span == sf.span
}

/// The two members are the property and the signal of `sf`.
pub open spec fn is_state_pair(sf: StateField, first: ClassMember, second: ClassMember) -> bool {
    match first {
        ClassMember::Property(p) => match second {
            ClassMember::Signal(s) => is_state_property(sf, p) && is_state_signal(sf, s),
            _ => false,
        },
        _ => false,
    }
}

/// The members hold, pair by pair, the property and the signal of each field.
pub open spec fn are_state_pairs(fields: Seq<StateField>, members: Seq<ClassMember>) -> bool {
    &&& members.len() == 2 * fields.len()
    &&& forall|k: int|
        0 <= k < fields.len() ==> is_state_pair(
            #[trigger] fields[k],
            members[2 * k],
            members[2 * k + 1],
        )
}

/// `c` is the holder class of the widget `w`.
pub open spec fn is_holder_class(w: WidgetDecl, c: ClassDecl) -> bool {
    &&& c.name.name@ == holder_name(w.name.name@)
    &&& c.name.span == w.span
    &&& c.generics@.len() == 0
    &&& is_qobject_type(c.super_class, w.span)
    &&& are_state_pairs(prop_fields(w.state_fields@, w.state_fields@.len() as int), c.members@)
    &&& !c.is_pub && !c.is_extern_value && !c.is_arc && c.is_copyable
    &&& c.span == w.span
}

/// The property of a `state` field, with a copy of its type and initial value.
pub fn state_property(sf: &StateField, ty: &TypeExpr) -> (r: PropertyDecl)
    requires
        sf.kind == (StateFieldKind::Property { ty: *ty }),
    ensures
        is_state_property(*sf, r),
{
    PropertyDecl {
        name: copy_ident(&sf.name),
        ty: copy_type_expr(ty),
        notify: Some(Ident { name: synth_notify_name(sf.name.name.as_str()), span: sf.span }),
        default: Some(copy_expr(&sf.init_expr)),
        is_pub: true,
        bindable: false,
        binding: None,
        fresh: None,
        model: false,
        constant: false,
        span: sf.span,
        block_id: None,
    }
}

/// The signal that announces a change of a `state` field.
pub fn state_signal(sf: &StateField) -> (r: SignalDecl)
    ensures
        is_state_signal(*sf, r),
{
    SignalDecl {
        name: Ident { name: synth_notify_name(sf.name.name.as_str()), span: sf.span },
        params: Vec::new(),
        is_pub: true,
        span: sf.span,
    }
}

/// The property and signal pairs of the `state` fields.
pub fn state_members(fields: &Vec<StateField>) -> (r: Vec<ClassMember>)
    ensures
        are_state_pairs(prop_fields(fields@, fields@.len() as int), r@),
{
    let mut members: Vec<ClassMember> = Vec::new();
    let mut i: usize = 0;
    while i < fields.len()
        invariant
            i <= fields@.len(),
            are_state_pairs(prop_fields(fields@, i as int), members@),
        decreases fields@.len() - i,
    {
        let sf = &fields[i];
        match &sf.kind {
            StateFieldKind::Property { ty } => {
                let ghost before = members@;
                let ghost pf = prop_fields(fields@, i as int);
                members.push(ClassMember::Property(state_property(sf, ty)));
                members.push(ClassMember::Signal(state_signal(sf)));
                proof {
                    let pf2 = prop_fields(fields@, i + 1);
                    assert(pf2 == pf.push(fields@[i as int]));
                    assert forall|k: int| 0 <= k < pf2.len() implies is_state_pair(
                        #[trigger] pf2[k],
                        members@[2 * k],
                        members@[2 * k + 1],
                    ) by {
                        if k < pf.len() {
                            assert(pf2[k] == pf[k]);
                            assert(members@[2 * k] == before[2 * k]);
                            assert(members@[2 * k + 1] == before[2 * k + 1]);
                        }
                    }
                }
            },
            StateFieldKind::Object => {},
        }
        i += 1;
    }
    members
}

/// The class that holds the state of a widget.
pub fn synthesize_holder_class(w: &WidgetDecl) -> (r: ClassDecl)
    ensures
        is_holder_class(*w, r),
{
    ClassDecl {
        name: Ident {
            name: "__".to_owned().concat(w.name.name.as_str()).concat("State"),
            span: w.span,
        },
        generics: Vec::new(),
        super_class: Some(qobject_type(w.span)),
        members: state_members(&w.state_fields),
        is_pub: false,
        is_extern_value: false,
        is_arc: false,
        is_copyable: true,
        span: w.span,
    }
}

// ---- the widget -------------------------------------------------------------------

/// `f` is `let __cute_state = <holder>()`.
pub open spec fn is_holder_field(w: WidgetDecl, f: StateField) -> bool {
    &&& f.name.name@ == "__cute_state"@
    &&& f.name.span == w.span
    &&& f.kind is Object
    &&& f.span == w.span
    &&& f.init_expr.span == w.span
    &&& match f.init_expr.kind {
        ExprKind::Call { callee, args, block, type_args } => {
            &&& is_ident(callee.kind, holder_name(w.name.name@))
            &&& callee.span == w.span
            &&& args@.len() == 0
            &&& block is None
            &&& type_args@.len() == 0
        },
        _ => false,
    }
}

/// The names of the `state` fields of a widget.
pub open spec fn state_names(w: WidgetDecl) -> Seq<Seq<char>> {
    field_names(prop_fields(w.state_fields@, w.state_fields@.len() as int))
}

/// `b` is the `let` field `a`, whose value reads the state from the holder.
pub open spec fn object_lifted(props: Seq<Seq<char>>, a: StateField, b: StateField) -> bool {
    &&& same_ident(a.name, b.name)
    &&& same_state_field_kind(a.kind, b.kind)
    &&& expr_lifted(props, a.init_expr, b.init_expr)
    &&& b.span == a.span
}

/// `b` holds the holder object first, and then the `let` fields of the widget.
pub open spec fn is_holder_then_objects(w: WidgetDecl, b: Seq<StateField>) -> bool {
    let objects = object_fields(w.state_fields@, w.state_fields@.len() as int);
    let props = state_names(w);
    &&& b.len() == 1 + objects.len()
    &&& is_holder_field(w, b[0])
    &&& forall|k: int|
        0 <= k < objects.len() ==> object_lifted(props, #[trigger] objects[k], b[k + 1])
}

/// `b` is the widget `a` with its state moved to the holder object.
pub open spec fn widget_lifted(a: WidgetDecl, b: WidgetDecl) -> bool {
    let props = state_names(a);
    &&& b.name == a.name
    &&& b.params == a.params
    &&& is_holder_then_objects(a, b.state_fields@)
    &&& element_lifted(props, a.root, b.root)
    &&& b.is_pub == a.is_pub
    &&& b.span == a.span
}

/// The state fields of a widget after lifting: the holder object comes first,
/// so that it is there before any object that depends on it.
pub fn rewrite_widget_state_fields(w: &WidgetDecl) -> (r: Vec<StateField>)
    ensures
        is_holder_then_objects(*w, r@),
{
    let props = prop_names(&w.state_fields);
    let span = w.span;
    let holder = "__".to_owned().concat(w.name.name.as_str()).concat("State");
    let mut out: Vec<StateField> = Vec::new();
    out.push(
        StateField {
            name: Ident { name: "__cute_state".to_owned(), span },
            kind: StateFieldKind::Object,
            init_expr: Expr {
                kind: ExprKind::Call {
                    callee: Box::new(Expr { kind: ExprKind::Ident(holder), span }),
                    args: Vec::new(),
                    block: None,
                    type_args: Vec::new(),
                },
                span,
            },
            span,
        },
    );
    let mut i: usize = 0;
    while i < w.state_fields.len()
        invariant
            i <= w.state_fields@.len(),
            out@.len() == 1 + object_fields(w.state_fields@, i as int).len(),
            is_holder_field(*w, out@[0]),
            views(props@) == state_names(*w),
            forall|k: int|
                0 <= k < object_fields(w.state_fields@, i as int).len() ==> object_lifted(
                    views(props@),
                    #[trigger] object_fields(w.state_fields@, i as int)[k],
                    out@[k + 1],
                ),
        decreases w.state_fields@.len() - i,
    {
        let sf = &w.state_fields[i];
        match &sf.kind {
            StateFieldKind::Property { .. } => {},
            StateFieldKind::Object => {
                let ghost before = object_fields(w.state_fields@, i as int);
                let init_expr = rewrite_expr(&props, &sf.init_expr);
                out.push(
                    StateField {
                        name: copy_ident(&sf.name),
                        kind: copy_state_field_kind(&sf.kind),
                        init_expr,
                        span: sf.span,
                    },
                );
                assert(object_fields(w.state_fields@, i + 1) == before.push(
                    w.state_fields@[i as int],
                ));
            },
        }
        i += 1;
    }
    out
}

fn prop_names(fields: &Vec<StateField>) -> (r: Vec<String>)
    ensures
        views(r@) == field_names(prop_fields(fields@, fields@.len() as int)),
{
    let mut out: Vec<String> = Vec::new();
    let mut i: usize = 0;
    assert(views(out@) =~= field_names(prop_fields(fields@, 0)));
    while i < fields.len()
        invariant
            i <= fields@.len(),
            views(out@) == field_names(prop_fields(fields@, i as int)),
        decreases fields@.len() - i,
    {
        match &fields[i].kind {
            StateFieldKind::Property { .. } => {
                let ghost before = out@;
                out.push(fields[i].name.name.clone());
                assert(prop_fields(fields@, i + 1) == prop_fields(fields@, i as int).push(
                    fields@[i as int],
                ));
                let ghost pf = prop_fields(fields@, i as int);
                assert(views(out@) =~= views(before).push(fields@[i as int].name.name@));
                assert(field_names(pf.push(fields@[i as int])) =~= field_names(pf).push(
                    fields@[i as int].name.name@,
                ));
            },
            StateFieldKind::Object => {},
        }
        i += 1;
    }
    out
}

// ---- modules -------------------------------------------------------------------------

/// The item is a widget with at least one `state` field.
pub open spec fn has_state(item: Item) -> bool {
    match item {
        Item::Widget(w) => prop_fields(w.state_fields@, w.state_fields@.len() as int).len() > 0,
        _ => false,
    }
}

/// The number of items that the first `n` items become: a widget with state
/// becomes two, every other item stays one.
pub open spec fn lifted_count(items: Seq<Item>, n: int) -> int
    decreases n,
{
    if n <= 0 {
        0
    } else {
        lifted_count(items, n - 1) + if has_state(items[n - 1]) {
            2int
        } else {
            1int
        }
    }
}

/// What item `a` becomes, in `out` from position `at` on: a widget with state
/// becomes its holder class and the lifted widget, any other item stays.
pub open spec fn item_lifted(a: Item, out: Seq<Item>, at: int) -> bool {
    if has_state(a) {
        match a {
            Item::Widget(w) => match out[at] {
                Item::Class(c) => match out[at + 1] {
                    Item::Widget(w2) => is_holder_class(w, c) && widget_lifted(w, w2),
                    _ => false,
                },
                _ => false,
            },
            _ => false,
        }
    } else {
        out[at] == a
    }
}

/// `b` is the module `a` with the state of every widget lifted.
pub open spec fn state_lifted(a: Module, b: Module) -> bool {
    let items = a.items@;
    &&& b.span == a.span
    &&& b.items@.len() == lifted_count(items, items.len() as int)
    &&& forall|i: int|
        0 <= i < items.len() ==> item_lifted(#[trigger] items[i], b.items@, lifted_count(items, i))
}

/// Earlier items stand before the end of what came out.
proof fn lemma_lifted_count(items: Seq<Item>, i: int, n: int)
    requires
        0 <= i < n,
    ensures
        0 <= lifted_count(items, i),
        lifted_count(items, i) + (if has_state(items[i]) {
            2int
        } else {
            1int
        }) <= lifted_count(items, n),
    decreases n,
{
    if i < n - 1 {
        lemma_lifted_count(items, i, n - 1);
    } else if i > 0 {
        lemma_lifted_count(items, i - 1, i);
    }
}

/// Lifts the state of every widget of the module.
pub fn desugar_widget_state(module: Module) -> (r: Module)
    ensures
        state_lifted(module, r),
{
    let mut out: Vec<Item> = Vec::new();
    let ghost items = module.items@;
    let span = module.span;
    for item in it: module.items
        invariant
            it.seq() == items,
            out@.len() == lifted_count(items, it.index() as int),
            forall|i: int|
                0 <= i < it.index() ==> item_lifted(
                    #[trigger] items[i],
                    out@,
                    lifted_count(items, i),
                ),
    {
        let ghost before = out@;
        let ghost at = it.index() as int;
        let ghost entry = item;
        assert(entry == items[at]);
        match item {
            Item::Widget(w) => {
                let props = prop_names(&w.state_fields);
                if props.len() == 0 {
                    assert(views(props@).len() == 0);
                    out.push(Item::Widget(w));
                } else {
                    assert(views(props@).len() > 0);
                    out.push(Item::Class(synthesize_holder_class(&w)));
                    let state_fields = rewrite_widget_state_fields(&w);
                    let root = rewrite_element(&props, &w.root);
                    out.push(
                        Item::Widget(
                            WidgetDecl {
                                name: w.name,
                                params: w.params,
                                state_fields,
                                root,
                                is_pub: w.is_pub,
                                span: w.span,
                            },
                        ),
                    );
                }
            },
            other => {
                out.push(other);
            },
        }
        proof {
            assert forall|i: int| 0 <= i < at + 1 implies item_lifted(
                #[trigger] items[i],
                out@,
                lifted_count(items, i),
            ) by {
                if i < at {
                    lemma_lifted_count(items, i, at);
                    let o = lifted_count(items, i);
                    assert(out@[o] == before[o]);
                    if has_state(items[i]) {
                        assert(out@[o + 1] == before[o + 1]);
                    }
                }
            }
        }
    }
    Module { items: out, span }
}

// ---- laws ---------------------------------------------------------------------------

/// No field is a `state` field.
pub open spec fn no_state(fields: Seq<StateField>) -> bool {
    forall|i: int| 0 <= i < fields.len() ==> (#[trigger] fields[i]).kind is Object
}

proof fn lemma_no_state(fields: Seq<StateField>, n: int)
    requires
        0 <= n <= fields.len(),
    ensures
        prop_fields(fields, n).len() == 0 <==> forall|i: int|
            0 <= i < n ==> (#[trigger] fields[i]).kind is Object,
    decreases n,
{
    if n > 0 {
        lemma_no_state(fields, n - 1);
        if fields[n - 1].kind is Property {
            assert(!(fields[n - 1].kind is Object));
        } else {
            assert(fields[n - 1].kind is Object);
        }
    }
}

proof fn lemma_objects(fields: Seq<StateField>, n: int)
    requires
        0 <= n <= fields.len(),
    ensures
        forall|k: int|
            0 <= k < object_fields(fields, n).len() ==> (#[trigger] object_fields(fields, n)[k]).kind is Object,
    decreases n,
{
    if n > 0 {
        lemma_objects(fields, n - 1);
    }
}

/// Every position of the output belongs to one item of the input.
proof fn lemma_lifted_source(items: Seq<Item>, n: int, j: int) -> (i: int)
    requires
        0 <= n <= items.len(),
        0 <= j < lifted_count(items, n),
    ensures
        0 <= i < n,
        j == lifted_count(items, i) || (has_state(items[i]) && j == lifted_count(items, i) + 1),
    decreases n,
{
    if j >= lifted_count(items, n - 1) {
        n - 1
    } else {
        lemma_lifted_source(items, n - 1, j)
    }
}

/// After lifting, no widget has a `state` field.
pub proof fn law_no_state_remains(a: Module, b: Module, j: int)
    requires
        state_lifted(a, b),
        0 <= j < b.items@.len(),
    ensures
        !has_state(b.items@[j]),
        match b.items@[j] {
            Item::Widget(w) => no_state(w.state_fields@),
            _ => true,
        },
{
    let items = a.items@;
    let i = lemma_lifted_source(items, items.len() as int, j);
    assert(item_lifted(items[i], b.items@, lifted_count(items, i)));
    match b.items@[j] {
        Item::Widget(w2) => {
            if has_state(items[i]) {
                if let Item::Widget(w) = items[i] {
                    lemma_objects(w.state_fields@, w.state_fields@.len() as int);
                    let objects = object_fields(w.state_fields@, w.state_fields@.len() as int);
                    assert forall|k: int| 0 <= k < w2.state_fields@.len() implies (
                    #[trigger] w2.state_fields@[k]).kind is Object by {
                        if k > 0 {
                            assert(object_lifted(state_names(w), objects[k - 1], w2.state_fields@[k]));
                        }
                    }
                }
            }
            lemma_no_state(w2.state_fields@, w2.state_fields@.len() as int);
        },
        _ => {},
    }
}

proof fn lemma_lifted_identity(items: Seq<Item>, n: int)
    requires
        0 <= n <= items.len(),
        forall|i: int| 0 <= i < items.len() ==> !has_state(#[trigger] items[i]),
    ensures
        lifted_count(items, n) == n,
    decreases n,
{
    if n > 0 {
        lemma_lifted_identity(items, n - 1);
    }
}

/// A module without widget state passes through unchanged.
pub proof fn law_stateless_unchanged(a: Module, b: Module)
    requires
        state_lifted(a, b),
        forall|i: int| 0 <= i < a.items@.len() ==> !has_state(#[trigger] a.items@[i]),
    ensures
        b.items@ == a.items@,
{
    let items = a.items@;
    lemma_lifted_identity(items, items.len() as int);
    assert forall|i: int| 0 <= i < items.len() implies b.items@[i] == items[i] by {
        lemma_lifted_identity(items, i);
        assert(item_lifted(items[i], b.items@, lifted_count(items, i)));
    }
    assert(b.items@ =~= a.items@);
}

/// Lifting a second time changes nothing.
pub proof fn law_lifting_idempotent(a: Module, b: Module, c: Module)
    requires
        state_lifted(a, b),
        state_lifted(b, c),
    ensures
        c.items@ == b.items@,
{
    assert forall|j: int| 0 <= j < b.items@.len() implies !has_state(#[trigger] b.items@[j]) by {
        law_no_state_remains(a, b, j);
    }
    law_stateless_unchanged(b, c);
}

} // verus!
