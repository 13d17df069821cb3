//! Laws of lifting widget state.

use crate::ast::{
    Block, CaseArm, Element, ElementMember, Expr, ExprKind, Ident, LetBinding, MapEntry, Param,
    Stmt, StrPart, WidgetDecl,
};
use crate::ast_copy::{
    same_block, same_case_arm, same_case_arms, same_element, same_element_member,
    same_element_members, same_expr, same_expr_kind, same_exprs, same_let_binding, same_map_entries,
    same_map_entry, same_opt_block, same_opt_boxed_expr, same_opt_expr, same_opt_let_binding,
    same_param, same_params, same_stmt, same_stmts, same_str_part, same_str_parts,
};
use crate::desugar_state::{
    block_lifted, case_arm_lifted, case_arms_lifted, element_lifted, element_member_lifted,
    element_members_lifted, expr_kind_lifted, expr_lifted, exprs_lifted, let_binding_lifted,
    map_entries_lifted, map_entry_lifted, object_fields, object_lifted, opt_block_lifted,
    opt_boxed_expr_lifted, opt_expr_lifted, opt_let_binding_lifted, param_lifted, params_lifted,
    reads_state, state_names, stmt_lifted, stmts_lifted, str_part_lifted, str_parts_lifted,
    widget_lifted,
};
use vstd::prelude::*;
use vstd::string::*;

verus! {

// ---- trees without bare state names -------------------------------------------------

/// No expression in the tree is one of the names. Patterns are no expressions.
pub open spec fn clean_element(props: Seq<Seq<char>>, a: Element) -> bool
    decreases a,
{
    &&& clean_element_members(props, a.members)
}

pub open spec fn clean_expr(props: Seq<Seq<char>>, a: Expr) -> bool
    decreases a,
{
    &&& clean_expr_kind(props, a.kind)
}

pub open spec fn clean_element_members(props: Seq<Seq<char>>, a: Vec<ElementMember>) -> bool
    decreases a,
{
    forall|i: int| 0 <= i < a@.len() ==> clean_element_member(props, #[trigger] a[i])
}

pub open spec fn clean_expr_kind(props: Seq<Seq<char>>, a: ExprKind) -> bool
    decreases a,
{
    match a {
        ExprKind::Ident(x) => !props.contains(x@),
        ExprKind::Call { callee, args, block, .. } => {
            &&& clean_expr(props, *callee)
            &&& clean_exprs(props, args)
            &&& clean_opt_boxed_expr(props, block)
        },
        ExprKind::MethodCall { receiver, args, block, .. } => {
            &&& clean_expr(props, *receiver)
            &&& clean_exprs(props, args)
            &&& clean_opt_boxed_expr(props, block)
        },
        ExprKind::Member { receiver, .. } => clean_expr(props, *receiver),
        ExprKind::SafeMember { receiver, .. } => clean_expr(props, *receiver),
        ExprKind::SafeMethodCall { receiver, args, block, .. } => {
            &&& clean_expr(props, *receiver)
            &&& clean_exprs(props, args)
            &&& clean_opt_boxed_expr(props, block)
        },
        ExprKind::Index { receiver, index, .. } => {
            &&& clean_expr(props, *receiver)
            &&& clean_expr(props, *index)
        },
        ExprKind::Block(x) => clean_block(props, x),
        ExprKind::Lambda { params, body, .. } => {
            &&& clean_params(props, params)
            &&& clean_block(props, body)
        },
        ExprKind::Unary { expr, .. } => clean_expr(props, *expr),
        ExprKind::Binary { lhs, rhs, .. } => {
            &&& clean_expr(props, *lhs)
            &&& clean_expr(props, *rhs)
        },
        ExprKind::Try(x) => clean_expr(props, *x),
        ExprKind::Await(x) => clean_expr(props, *x),
        ExprKind::If { cond, then_b, else_b, let_binding, .. } => {
            &&& clean_expr(props, *cond)
            &&& clean_block(props, then_b)
            &&& clean_opt_block(props, else_b)
            &&& clean_opt_let_binding(props, let_binding)
        },
        ExprKind::Case { scrutinee, arms, .. } => {
            &&& clean_expr(props, *scrutinee)
            &&& clean_case_arms(props, arms)
        },
        ExprKind::Kwarg { value, .. } => clean_expr(props, *value),
        ExprKind::Element(x) => clean_element(props, x),
        ExprKind::Array(x) => clean_exprs(props, x),
        ExprKind::MapLit(x) => clean_map_entries(props, x),
        ExprKind::Range { start, end, .. } => {
            &&& clean_expr(props, *start)
            &&& clean_expr(props, *end)
        },
        ExprKind::Str(x) => clean_str_parts(props, x),
        _ => true,
    }
}

pub open spec fn clean_element_member(props: Seq<Seq<char>>, a: ElementMember) -> bool
    decreases a,
{
    match a {
        ElementMember::Property { value, .. } => clean_expr(props, value),
        ElementMember::Child(x) => clean_element(props, x),
        ElementMember::Stmt(x) => clean_stmt(props, x),
    }
}

pub open spec fn clean_exprs(props: Seq<Seq<char>>, a: Vec<Expr>) -> bool
    decreases a,
{
    forall|i: int| 0 <= i < a@.len() ==> clean_expr(props, #[trigger] a[i])
}

pub open spec fn clean_opt_boxed_expr(props: Seq<Seq<char>>, a: Option<Box<Expr>>) -> bool
    decreases a,
{
    match a {
        Some(x) => clean_expr(props, *x),
        None => true,
    }
}

pub open spec fn clean_block(props: Seq<Seq<char>>, a: Block) -> bool
    decreases a,
{
    &&& clean_stmts(props, a.stmts)
    &&& clean_opt_boxed_expr(props, a.trailing)
}

pub open spec fn clean_params(props: Seq<Seq<char>>, a: Vec<Param>) -> bool
    decreases a,
{
    forall|i: int| 0 <= i < a@.len() ==> clean_param(props, #[trigger] a[i])
}

pub open spec fn clean_opt_block(props: Seq<Seq<char>>, a: Option<Block>) -> bool
    decreases a,
{
    match a {
        Some(x) => clean_block(props, x),
        None => true,
    }
}

pub open spec fn clean_opt_let_binding(props: Seq<Seq<char>>, a: Option<LetBinding>) -> bool
    decreases a,
{
    match a {
        Some(x) => clean_let_binding(props, x),
        None => true,
    }
}

pub open spec fn clean_case_arms(props: Seq<Seq<char>>, a: Vec<CaseArm>) -> bool
    decreases a,
{
    forall|i: int| 0 <= i < a@.len() ==> clean_case_arm(props, #[trigger] a[i])
}

pub open spec fn clean_map_entries(props: Seq<Seq<char>>, a: Vec<MapEntry>) -> bool
    decreases a,
{
    forall|i: int| 0 <= i < a@.len() ==> clean_map_entry(props, #[trigger] a[i])
}

pub open spec fn clean_str_parts(props: Seq<Seq<char>>, a: Vec<StrPart>) -> bool
    decreases a,
{
    forall|i: int| 0 <= i < a@.len() ==> clean_str_part(props, #[trigger] a[i])
}

pub open spec fn clean_stmt(props: Seq<Seq<char>>, a: Stmt) -> bool
    decreases a,
{
    match a {
        Stmt::Let { value, .. } => clean_expr(props, value),
        Stmt::Var { value, .. } => clean_expr(props, value),
        Stmt::Expr(x) => clean_expr(props, x),
        Stmt::Return { value, .. } => clean_opt_expr(props, value),
        Stmt::Emit { args, .. } => clean_exprs(props, args),
        Stmt::Assign { target, value, .. } => {
            &&& clean_expr(props, target)
            &&& clean_expr(props, value)
        },
        Stmt::For { iter, body, .. } => {
            &&& clean_expr(props, iter)
            &&& clean_block(props, body)
        },
        Stmt::While { cond, body, .. } => {
            &&& clean_expr(props, cond)
            &&& clean_block(props, body)
        },
        Stmt::Batch { body, .. } => clean_block(props, body),
        _ => true,
    }
}

pub open spec fn clean_stmts(props: Seq<Seq<char>>, a: Vec<Stmt>) -> bool
    decreases a,
{
    forall|i: int| 0 <= i < a@.len() ==> clean_stmt(props, #[trigger] a[i])
}

pub open spec fn clean_param(props: Seq<Seq<char>>, a: Param) -> bool
    decreases a,
{
    &&& clean_opt_expr(props, a.default)
}

pub open spec fn clean_let_binding(props: Seq<Seq<char>>, a: LetBinding) -> bool
    decreases a,
{
    &&& clean_expr(props, *a.value)
}

pub open spec fn clean_case_arm(props: Seq<Seq<char>>, a: CaseArm) -> bool
    decreases a,
{
    &&& clean_block(props, a.body)
}

pub open spec fn clean_map_entry(props: Seq<Seq<char>>, a: MapEntry) -> bool
    decreases a,
{
    &&& clean_expr(props, a.key)
    &&& clean_expr(props, a.value)
}

pub open spec fn clean_str_part(props: Seq<Seq<char>>, a: StrPart) -> bool
    decreases a,
{
    match a {
        StrPart::Interp(x) => clean_expr(props, *x),
        StrPart::InterpFmt { expr, .. } => clean_expr(props, *expr),
        _ => true,
    }
}

pub open spec fn clean_opt_expr(props: Seq<Seq<char>>, a: Option<Expr>) -> bool
    decreases a,
{
    match a {
        Some(x) => clean_expr(props, x),
        None => true,
    }
}

// ---- lifting leaves no bare state name -----------------------------------------------

proof fn lemma_element_clean(props: Seq<Seq<char>>, a: Element, b: Element)
    requires
        !props.contains("__cute_state"@),
        element_lifted(props, a, b),
    ensures
        clean_element(props, b),
    decreases a,
{
    lemma_element_members_clean(props, a.members, b.members);
}

proof fn lemma_expr_clean(props: Seq<Seq<char>>, a: Expr, b: Expr)
    requires
        !props.contains("__cute_state"@),
        expr_lifted(props, a, b),
    ensures
        clean_expr(props, b),
    decreases a,
{
    if reads_state(props, a) {
        if let ExprKind::Member { receiver, name } = b.kind {
            assert(clean_expr_kind(props, receiver.kind));
            assert(clean_expr(props, *receiver));
        }
        assert(clean_expr_kind(props, b.kind));
    } else {
        lemma_expr_kind_clean(props, a.kind, b.kind);
    }
}

proof fn lemma_element_members_clean(
    props: Seq<Seq<char>>,
    a: Vec<ElementMember>,
    b: Vec<ElementMember>,
)
    requires
        !props.contains("__cute_state"@),
        element_members_lifted(props, a, b),
    ensures
        clean_element_members(props, b),
    decreases a,
{
    assert forall|i: int| 0 <= i < b@.len() implies clean_element_member(props, #[trigger] b[i]) by {
        lemma_element_member_clean(props, a[i], b[i]);
    }
}

proof fn lemma_expr_kind_clean(props: Seq<Seq<char>>, a: ExprKind, b: ExprKind)
    requires
        match a {
            ExprKind::Ident(x) => !props.contains(x@),
            _ => true,
        },
        !props.contains("__cute_state"@),
        expr_kind_lifted(props, a, b),
    ensures
        clean_expr_kind(props, b),
    decreases a,
{
    match a {
        ExprKind::Ident(_) => {},
        ExprKind::Call { callee, args, block, .. } => {
            if let ExprKind::Call { callee: callee2, args: args2, block: block2, .. } = b {
                lemma_expr_clean(props, *callee, *callee2);
                lemma_exprs_clean(props, args, args2);
                lemma_opt_boxed_expr_clean(props, block, block2);
            }
        },
        ExprKind::MethodCall { receiver, args, block, .. } => {
            if let ExprKind::MethodCall { receiver: receiver2, args: args2, block: block2, .. } = b {
                lemma_expr_clean(props, *receiver, *receiver2);
                lemma_exprs_clean(props, args, args2);
                lemma_opt_boxed_expr_clean(props, block, block2);
            }
        },
        ExprKind::Member { receiver, .. } => {
            if let ExprKind::Member { receiver: receiver2, .. } = b {
                lemma_expr_clean(props, *receiver, *receiver2);
            }
        },
        ExprKind::SafeMember { receiver, .. } => {
            if let ExprKind::SafeMember { receiver: receiver2, .. } = b {
                lemma_expr_clean(props, *receiver, *receiver2);
            }
        },
        ExprKind::SafeMethodCall { receiver, args, block, .. } => {
            if let ExprKind::SafeMethodCall { receiver: receiver2, args: args2, block: block2, .. } = b {
                lemma_expr_clean(props, *receiver, *receiver2);
                lemma_exprs_clean(props, args, args2);
                lemma_opt_boxed_expr_clean(props, block, block2);
            }
        },
        ExprKind::Index { receiver, index, .. } => {
            if let ExprKind::Index { receiver: receiver2, index: index2, .. } = b {
                lemma_expr_clean(props, *receiver, *receiver2);
                lemma_expr_clean(props, *index, *index2);
            }
        },
        ExprKind::Block(x) => {
            if let ExprKind::Block(y) = b {
                lemma_block_clean(props, x, y);
            }
        },
        ExprKind::Lambda { params, body, .. } => {
            if let ExprKind::Lambda { params: params2, body: body2, .. } = b {
                lemma_params_clean(props, params, params2);
                lemma_block_clean(props, body, body2);
            }
        },
        ExprKind::Unary { expr, .. } => {
            if let ExprKind::Unary { expr: expr2, .. } = b {
                lemma_expr_clean(props, *expr, *expr2);
            }
        },
        ExprKind::Binary { lhs, rhs, .. } => {
            if let ExprKind::Binary { lhs: lhs2, rhs: rhs2, .. } = b {
                lemma_expr_clean(props, *lhs, *lhs2);
                lemma_expr_clean(props, *rhs, *rhs2);
            }
        },
        ExprKind::Try(x) => {
            if let ExprKind::Try(y) = b {
                lemma_expr_clean(props, *x, *y);
            }
        },
        ExprKind::Await(x) => {
            if let ExprKind::Await(y) = b {
                lemma_expr_clean(props, *x, *y);
            }
        },
        ExprKind::If { cond, then_b, else_b, let_binding, .. } => {
            if let ExprKind::If { cond: cond2, then_b: then_b2, else_b: else_b2, let_binding: let_binding2, .. } = b {
                lemma_expr_clean(props, *cond, *cond2);
                lemma_block_clean(props, then_b, then_b2);
                lemma_opt_block_clean(props, else_b, else_b2);
                lemma_opt_let_binding_clean(props, let_binding, let_binding2);
            }
        },
        ExprKind::Case { scrutinee, arms, .. } => {
            if let ExprKind::Case { scrutinee: scrutinee2, arms: arms2, .. } = b {
                lemma_expr_clean(props, *scrutinee, *scrutinee2);
                lemma_case_arms_clean(props, arms, arms2);
            }
        },
        ExprKind::Kwarg { value, .. } => {
            if let ExprKind::Kwarg { value: value2, .. } = b {
                lemma_expr_clean(props, *value, *value2);
            }
        },
        ExprKind::Element(x) => {
            if let ExprKind::Element(y) = b {
                lemma_element_clean(props, x, y);
            }
        },
        ExprKind::Array(x) => {
            if let ExprKind::Array(y) = b {
                lemma_exprs_clean(props, x, y);
            }
        },
        ExprKind::MapLit(x) => {
            if let ExprKind::MapLit(y) = b {
                lemma_map_entries_clean(props, x, y);
            }
        },
        ExprKind::Range { start, end, .. } => {
            if let ExprKind::Range { start: start2, end: end2, .. } = b {
                lemma_expr_clean(props, *start, *start2);
                lemma_expr_clean(props, *end, *end2);
            }
        },
        ExprKind::Str(x) => {
            if let ExprKind::Str(y) = b {
                lemma_str_parts_clean(props, x, y);
            }
        },
        _ => {},
    }
}

proof fn lemma_element_member_clean(props: Seq<Seq<char>>, a: ElementMember, b: ElementMember)
    requires
        !props.contains("__cute_state"@),
        element_member_lifted(props, a, b),
    ensures
        clean_element_member(props, b),
    decreases a,
{
    match a {
        ElementMember::Property { value, .. } => {
            if let ElementMember::Property { value: value2, .. } = b {
                lemma_expr_clean(props, value, value2);
            }
        },
        ElementMember::Child(x) => {
            if let ElementMember::Child(y) = b {
                lemma_element_clean(props, x, y);
            }
        },
        ElementMember::Stmt(x) => {
            if let ElementMember::Stmt(y) = b {
                lemma_stmt_clean(props, x, y);
            }
        },
    }
}

proof fn lemma_exprs_clean(props: Seq<Seq<char>>, a: Vec<Expr>, b: Vec<Expr>)
    requires
        !props.contains("__cute_state"@),
        exprs_lifted(props, a, b),
    ensures
        clean_exprs(props, b),
    decreases a,
{
    assert forall|i: int| 0 <= i < b@.len() implies clean_expr(props, #[trigger] b[i]) by {
        lemma_expr_clean(props, a[i], b[i]);
    }
}

proof fn lemma_opt_boxed_expr_clean(
    props: Seq<Seq<char>>,
    a: Option<Box<Expr>>,
    b: Option<Box<Expr>>,
)
    requires
        !props.contains("__cute_state"@),
        opt_boxed_expr_lifted(props, a, b),
    ensures
        clean_opt_boxed_expr(props, b),
    decreases a,
{
    match a {
        Some(x) => {
            lemma_expr_clean(props, *x, *b->0);
        },
        None => {},
    }
}

proof fn lemma_block_clean(props: Seq<Seq<char>>, a: Block, b: Block)
    requires
        !props.contains("__cute_state"@),
        block_lifted(props, a, b),
    ensures
        clean_block(props, b),
    decreases a,
{
    lemma_stmts_clean(props, a.stmts, b.stmts);
    lemma_opt_boxed_expr_clean(props, a.trailing, b.trailing);
}

proof fn lemma_params_clean(props: Seq<Seq<char>>, a: Vec<Param>, b: Vec<Param>)
    requires
        !props.contains("__cute_state"@),
        params_lifted(props, a, b),
    ensures
        clean_params(props, b),
    decreases a,
{
    assert forall|i: int| 0 <= i < b@.len() implies clean_param(props, #[trigger] b[i]) by {
        lemma_param_clean(props, a[i], b[i]);
    }
}

proof fn lemma_opt_block_clean(props: Seq<Seq<char>>, a: Option<Block>, b: Option<Block>)
    requires
        !props.contains("__cute_state"@),
        opt_block_lifted(props, a, b),
    ensures
        clean_opt_block(props, b),
    decreases a,
{
    match a {
        Some(x) => {
            lemma_block_clean(props, x, b->0);
        },
        None => {},
    }
}

proof fn lemma_opt_let_binding_clean(
    props: Seq<Seq<char>>,
    a: Option<LetBinding>,
    b: Option<LetBinding>,
)
    requires
        !props.contains("__cute_state"@),
        opt_let_binding_lifted(props, a, b),
    ensures
        clean_opt_let_binding(props, b),
    decreases a,
{
    match a {
        Some(x) => {
            lemma_let_binding_clean(props, x, b->0);
        },
        None => {},
    }
}

proof fn lemma_case_arms_clean(props: Seq<Seq<char>>, a: Vec<CaseArm>, b: Vec<CaseArm>)
    requires
        !props.contains("__cute_state"@),
        case_arms_lifted(props, a, b),
    ensures
        clean_case_arms(props, b),
    decreases a,
{
    assert forall|i: int| 0 <= i < b@.len() implies clean_case_arm(props, #[trigger] b[i]) by {
        lemma_case_arm_clean(props, a[i], b[i]);
    }
}

proof fn lemma_map_entries_clean(props: Seq<Seq<char>>, a: Vec<MapEntry>, b: Vec<MapEntry>)
    requires
        !props.contains("__cute_state"@),
        map_entries_lifted(props, a, b),
    ensures
        clean_map_entries(props, b),
    decreases a,
{
    assert forall|i: int| 0 <= i < b@.len() implies clean_map_entry(props, #[trigger] b[i]) by {
        lemma_map_entry_clean(props, a[i], b[i]);
    }
}

proof fn lemma_str_parts_clean(props: Seq<Seq<char>>, a: Vec<StrPart>, b: Vec<StrPart>)
    requires
        !props.contains("__cute_state"@),
        str_parts_lifted(props, a, b),
    ensures
        clean_str_parts(props, b),
    decreases a,
{
    assert forall|i: int| 0 <= i < b@.len() implies clean_str_part(props, #[trigger] b[i]) by {
        lemma_str_part_clean(props, a[i], b[i]);
    }
}

proof fn lemma_stmt_clean(props: Seq<Seq<char>>, a: Stmt, b: Stmt)
    requires
        !props.contains("__cute_state"@),
        stmt_lifted(props, a, b),
    ensures
        clean_stmt(props, b),
    decreases a,
{
    match a {
        Stmt::Let { value, .. } => {
            if let Stmt::Let { value: value2, .. } = b {
                lemma_expr_clean(props, value, value2);
            }
        },
        Stmt::Var { value, .. } => {
            if let Stmt::Var { value: value2, .. } = b {
                lemma_expr_clean(props, value, value2);
            }
        },
        Stmt::Expr(x) => {
            if let Stmt::Expr(y) = b {
                lemma_expr_clean(props, x, y);
            }
        },
        Stmt::Return { value, .. } => {
            if let Stmt::Return { value: value2, .. } = b {
                lemma_opt_expr_clean(props, value, value2);
            }
        },
        Stmt::Emit { args, .. } => {
            if let Stmt::Emit { args: args2, .. } = b {
                lemma_exprs_clean(props, args, args2);
            }
        },
        Stmt::Assign { target, value, .. } => {
            if let Stmt::Assign { target: target2, value: value2, .. } = b {
                lemma_expr_clean(props, target, target2);
                lemma_expr_clean(props, value, value2);
            }
        },
        Stmt::For { iter, body, .. } => {
            if let Stmt::For { iter: iter2, body: body2, .. } = b {
                lemma_expr_clean(props, iter, iter2);
                lemma_block_clean(props, body, body2);
            }
        },
        Stmt::While { cond, body, .. } => {
            if let Stmt::While { cond: cond2, body: body2, .. } = b {
                lemma_expr_clean(props, cond, cond2);
                lemma_block_clean(props, body, body2);
            }
        },
        Stmt::Batch { body, .. } => {
            if let Stmt::Batch { body: body2, .. } = b {
                lemma_block_clean(props, body, body2);
            }
        },
        _ => {},
    }
}

proof fn lemma_stmts_clean(props: Seq<Seq<char>>, a: Vec<Stmt>, b: Vec<Stmt>)
    requires
        !props.contains("__cute_state"@),
        stmts_lifted(props, a, b),
    ensures
        clean_stmts(props, b),
    decreases a,
{
    assert forall|i: int| 0 <= i < b@.len() implies clean_stmt(props, #[trigger] b[i]) by {
        lemma_stmt_clean(props, a[i], b[i]);
    }
}

proof fn lemma_param_clean(props: Seq<Seq<char>>, a: Param, b: Param)
    requires
        !props.contains("__cute_state"@),
        param_lifted(props, a, b),
    ensures
        clean_param(props, b),
    decreases a,
{
    lemma_opt_expr_clean(props, a.default, b.default);
}

proof fn lemma_let_binding_clean(props: Seq<Seq<char>>, a: LetBinding, b: LetBinding)
    requires
        !props.contains("__cute_state"@),
        let_binding_lifted(props, a, b),
    ensures
        clean_let_binding(props, b),
    decreases a,
{
    lemma_expr_clean(props, *a.value, *b.value);
}

proof fn lemma_case_arm_clean(props: Seq<Seq<char>>, a: CaseArm, b: CaseArm)
    requires
        !props.contains("__cute_state"@),
        case_arm_lifted(props, a, b),
    ensures
        clean_case_arm(props, b),
    decreases a,
{
    lemma_block_clean(props, a.body, b.body);
}

proof fn lemma_map_entry_clean(props: Seq<Seq<char>>, a: MapEntry, b: MapEntry)
    requires
        !props.contains("__cute_state"@),
        map_entry_lifted(props, a, b),
    ensures
        clean_map_entry(props, b),
    decreases a,
{
    lemma_expr_clean(props, a.key, b.key);
    lemma_expr_clean(props, a.value, b.value);
}

proof fn lemma_str_part_clean(props: Seq<Seq<char>>, a: StrPart, b: StrPart)
    requires
        !props.contains("__cute_state"@),
        str_part_lifted(props, a, b),
    ensures
        clean_str_part(props, b),
    decreases a,
{
    match a {
        StrPart::Interp(x) => {
            if let StrPart::Interp(y) = b {
                lemma_expr_clean(props, *x, *y);
            }
        },
        StrPart::InterpFmt { expr, .. } => {
            if let StrPart::InterpFmt { expr: expr2, .. } = b {
                lemma_expr_clean(props, *expr, *expr2);
            }
        },
        _ => {},
    }
}

proof fn lemma_opt_expr_clean(props: Seq<Seq<char>>, a: Option<Expr>, b: Option<Expr>)
    requires
        !props.contains("__cute_state"@),
        opt_expr_lifted(props, a, b),
    ensures
        clean_opt_expr(props, b),
    decreases a,
{
    match a {
        Some(x) => {
            lemma_expr_clean(props, x, b->0);
        },
        None => {},
    }
}

// ---- lifting without state names -------------------------------------------------------

proof fn lemma_element_kept(props: Seq<Seq<char>>, a: Element, b: Element)
    requires
        props.len() == 0,
        element_lifted(props, a, b),
    ensures
        same_element(a, b),
    decreases a,
{
    lemma_element_members_kept(props, a.members, b.members);
}

proof fn lemma_expr_kept(props: Seq<Seq<char>>, a: Expr, b: Expr)
    requires
        props.len() == 0,
        expr_lifted(props, a, b),
    ensures
        same_expr(a, b),
    decreases a,
{
    assert(!reads_state(props, a));
    lemma_expr_kind_kept(props, a.kind, b.kind);
}

proof fn lemma_element_members_kept(
    props: Seq<Seq<char>>,
    a: Vec<ElementMember>,
    b: Vec<ElementMember>,
)
    requires
        props.len() == 0,
        element_members_lifted(props, a, b),
    ensures
        same_element_members(a, b),
    decreases a,
{
    assert forall|i: int| 0 <= i < a@.len() implies same_element_member(#[trigger] a[i], b[i]) by {
        lemma_element_member_kept(props, a[i], b[i]);
    }
}

proof fn lemma_expr_kind_kept(props: Seq<Seq<char>>, a: ExprKind, b: ExprKind)
    requires
        props.len() == 0,
        expr_kind_lifted(props, a, b),
    ensures
        same_expr_kind(a, b),
    decreases a,
{
    match a {
        ExprKind::Call { callee, args, block, .. } => {
            if let ExprKind::Call { callee: callee2, args: args2, block: block2, .. } = b {
                lemma_expr_kept(props, *callee, *callee2);
                lemma_exprs_kept(props, args, args2);
                lemma_opt_boxed_expr_kept(props, block, block2);
            }
        },
        ExprKind::MethodCall { receiver, args, block, .. } => {
            if let ExprKind::MethodCall { receiver: receiver2, args: args2, block: block2, .. } = b {
                lemma_expr_kept(props, *receiver, *receiver2);
                lemma_exprs_kept(props, args, args2);
                lemma_opt_boxed_expr_kept(props, block, block2);
            }
        },
        ExprKind::Member { receiver, .. } => {
            if let ExprKind::Member { receiver: receiver2, .. } = b {
                lemma_expr_kept(props, *receiver, *receiver2);
            }
        },
        ExprKind::SafeMember { receiver, .. } => {
            if let ExprKind::SafeMember { receiver: receiver2, .. } = b {
                lemma_expr_kept(props, *receiver, *receiver2);
            }
        },
        ExprKind::SafeMethodCall { receiver, args, block, .. } => {
            if let ExprKind::SafeMethodCall { receiver: receiver2, args: args2, block: block2, .. } = b {
                lemma_expr_kept(props, *receiver, *receiver2);
                lemma_exprs_kept(props, args, args2);
                lemma_opt_boxed_expr_kept(props, block, block2);
            }
        },
        ExprKind::Index { receiver, index, .. } => {
            if let ExprKind::Index { receiver: receiver2, index: index2, .. } = b {
                lemma_expr_kept(props, *receiver, *receiver2);
                lemma_expr_kept(props, *index, *index2);
            }
        },
        ExprKind::Block(x) => {
            if let ExprKind::Block(y) = b {
                lemma_block_kept(props, x, y);
            }
        },
        ExprKind::Lambda { params, body, .. } => {
            if let ExprKind::Lambda { params: params2, body: body2, .. } = b {
                lemma_params_kept(props, params, params2);
                lemma_block_kept(props, body, body2);
            }
        },
        ExprKind::Unary { expr, .. } => {
            if let ExprKind::Unary { expr: expr2, .. } = b {
                lemma_expr_kept(props, *expr, *expr2);
            }
        },
        ExprKind::Binary { lhs, rhs, .. } => {
            if let ExprKind::Binary { lhs: lhs2, rhs: rhs2, .. } = b {
                lemma_expr_kept(props, *lhs, *lhs2);
                lemma_expr_kept(props, *rhs, *rhs2);
            }
        },
        ExprKind::Try(x) => {
            if let ExprKind::Try(y) = b {
                lemma_expr_kept(props, *x, *y);
            }
        },
        ExprKind::Await(x) => {
            if let ExprKind::Await(y) = b {
                lemma_expr_kept(props, *x, *y);
            }
        },
        ExprKind::If { cond, then_b, else_b, let_binding, .. } => {
            if let ExprKind::If { cond: cond2, then_b: then_b2, else_b: else_b2, let_binding: let_binding2, .. } = b {
                lemma_expr_kept(props, *cond, *cond2);
                lemma_block_kept(props, then_b, then_b2);
                lemma_opt_block_kept(props, else_b, else_b2);
                lemma_opt_let_binding_kept(props, let_binding, let_binding2);
            }
        },
        ExprKind::Case { scrutinee, arms, .. } => {
            if let ExprKind::Case { scrutinee: scrutinee2, arms: arms2, .. } = b {
                lemma_expr_kept(props, *scrutinee, *scrutinee2);
                lemma_case_arms_kept(props, arms, arms2);
            }
        },
        ExprKind::Kwarg { value, .. } => {
            if let ExprKind::Kwarg { value: value2, .. } = b {
                lemma_expr_kept(props, *value, *value2);
            }
        },
        ExprKind::Element(x) => {
            if let ExprKind::Element(y) = b {
                lemma_element_kept(props, x, y);
            }
        },
        ExprKind::Array(x) => {
            if let ExprKind::Array(y) = b {
                lemma_exprs_kept(props, x, y);
            }
        },
        ExprKind::MapLit(x) => {
            if let ExprKind::MapLit(y) = b {
                lemma_map_entries_kept(props, x, y);
            }
        },
        ExprKind::Range { start, end, .. } => {
            if let ExprKind::Range { start: start2, end: end2, .. } = b {
                lemma_expr_kept(props, *start, *start2);
                lemma_expr_kept(props, *end, *end2);
            }
        },
        ExprKind::Str(x) => {
            if let ExprKind::Str(y) = b {
                lemma_str_parts_kept(props, x, y);
            }
        },
        _ => {},
    }
}

proof fn lemma_element_member_kept(props: Seq<Seq<char>>, a: ElementMember, b: ElementMember)
    requires
        props.len() == 0,
        element_member_lifted(props, a, b),
    ensures
        same_element_member(a, b),
    decreases a,
{
    match a {
        ElementMember::Property { value, .. } => {
            if let ElementMember::Property { value: value2, .. } = b {
                lemma_expr_kept(props, value, value2);
            }
        },
        ElementMember::Child(x) => {
            if let ElementMember::Child(y) = b {
                lemma_element_kept(props, x, y);
            }
        },
        ElementMember::Stmt(x) => {
            if let ElementMember::Stmt(y) = b {
                lemma_stmt_kept(props, x, y);
            }
        },
    }
}

proof fn lemma_exprs_kept(props: Seq<Seq<char>>, a: Vec<Expr>, b: Vec<Expr>)
    requires
        props.len() == 0,
        exprs_lifted(props, a, b),
    ensures
        same_exprs(a, b),
    decreases a,
{
    assert forall|i: int| 0 <= i < a@.len() implies same_expr(#[trigger] a[i], b[i]) by {
        lemma_expr_kept(props, a[i], b[i]);
    }
}

proof fn lemma_opt_boxed_expr_kept(
    props: Seq<Seq<char>>,
    a: Option<Box<Expr>>,
    b: Option<Box<Expr>>,
)
    requires
        props.len() == 0,
        opt_boxed_expr_lifted(props, a, b),
    ensures
        same_opt_boxed_expr(a, b),
    decreases a,
{
    match a {
        Some(x) => {
            lemma_expr_kept(props, *x, *b->0);
        },
        None => {},
    }
}

proof fn lemma_block_kept(props: Seq<Seq<char>>, a: Block, b: Block)
    requires
        props.len() == 0,
        block_lifted(props, a, b),
    ensures
        same_block(a, b),
    decreases a,
{
    lemma_stmts_kept(props, a.stmts, b.stmts);
    lemma_opt_boxed_expr_kept(props, a.trailing, b.trailing);
}

proof fn lemma_params_kept(props: Seq<Seq<char>>, a: Vec<Param>, b: Vec<Param>)
    requires
        props.len() == 0,
        params_lifted(props, a, b),
    ensures
        same_params(a, b),
    decreases a,
{
    assert forall|i: int| 0 <= i < a@.len() implies same_param(#[trigger] a[i], b[i]) by {
        lemma_param_kept(props, a[i], b[i]);
    }
}

proof fn lemma_opt_block_kept(props: Seq<Seq<char>>, a: Option<Block>, b: Option<Block>)
    requires
        props.len() == 0,
        opt_block_lifted(props, a, b),
    ensures
        same_opt_block(a, b),
    decreases a,
{
    match a {
        Some(x) => {
            lemma_block_kept(props, x, b->0);
        },
        None => {},
    }
}

proof fn lemma_opt_let_binding_kept(
    props: Seq<Seq<char>>,
    a: Option<LetBinding>,
    b: Option<LetBinding>,
)
    requires
        props.len() == 0,
        opt_let_binding_lifted(props, a, b),
    ensures
        same_opt_let_binding(a, b),
    decreases a,
{
    match a {
        Some(x) => {
            lemma_let_binding_kept(props, x, b->0);
        },
        None => {},
    }
}

proof fn lemma_case_arms_kept(props: Seq<Seq<char>>, a: Vec<CaseArm>, b: Vec<CaseArm>)
    requires
        props.len() == 0,
        case_arms_lifted(props, a, b),
    ensures
        same_case_arms(a, b),
    decreases a,
{
    assert forall|i: int| 0 <= i < a@.len() implies same_case_arm(#[trigger] a[i], b[i]) by {
        lemma_case_arm_kept(props, a[i], b[i]);
    }
}

proof fn lemma_map_entries_kept(props: Seq<Seq<char>>, a: Vec<MapEntry>, b: Vec<MapEntry>)
    requires
        props.len() == 0,
        map_entries_lifted(props, a, b),
    ensures
        same_map_entries(a, b),
    decreases a,
{
    assert forall|i: int| 0 <= i < a@.len() implies same_map_entry(#[trigger] a[i], b[i]) by {
        lemma_map_entry_kept(props, a[i], b[i]);
    }
}

proof fn lemma_str_parts_kept(props: Seq<Seq<char>>, a: Vec<StrPart>, b: Vec<StrPart>)
    requires
        props.len() == 0,
        str_parts_lifted(props, a, b),
    ensures
        same_str_parts(a, b),
    decreases a,
{
    assert forall|i: int| 0 <= i < a@.len() implies same_str_part(#[trigger] a[i], b[i]) by {
        lemma_str_part_kept(props, a[i], b[i]);
    }
}

proof fn lemma_stmt_kept(props: Seq<Seq<char>>, a: Stmt, b: Stmt)
    requires
        props.len() == 0,
        stmt_lifted(props, a, b),
    ensures
        same_stmt(a, b),
    decreases a,
{
    match a {
        Stmt::Let { value, .. } => {
            if let Stmt::Let { value: value2, .. } = b {
                lemma_expr_kept(props, value, value2);
            }
        },
        Stmt::Var { value, .. } => {
            if let Stmt::Var { value: value2, .. } = b {
                lemma_expr_kept(props, value, value2);
            }
        },
        Stmt::Expr(x) => {
            if let Stmt::Expr(y) = b {
                lemma_expr_kept(props, x, y);
            }
        },
        Stmt::Return { value, .. } => {
            if let Stmt::Return { value: value2, .. } = b {
                lemma_opt_expr_kept(props, value, value2);
            }
        },
        Stmt::Emit { args, .. } => {
            if let Stmt::Emit { args: args2, .. } = b {
                lemma_exprs_kept(props, args, args2);
            }
        },
        Stmt::Assign { target, value, .. } => {
            if let Stmt::Assign { target: target2, value: value2, .. } = b {
                lemma_expr_kept(props, target, target2);
                lemma_expr_kept(props, value, value2);
            }
        },
        Stmt::For { iter, body, .. } => {
            if let Stmt::For { iter: iter2, body: body2, .. } = b {
                lemma_expr_kept(props, iter, iter2);
                lemma_block_kept(props, body, body2);
            }
        },
        Stmt::While { cond, body, .. } => {
            if let Stmt::While { cond: cond2, body: body2, .. } = b {
                lemma_expr_kept(props, cond, cond2);
                lemma_block_kept(props, body, body2);
            }
        },
        Stmt::Batch { body, .. } => {
            if let Stmt::Batch { body: body2, .. } = b {
                lemma_block_kept(props, body, body2);
            }
        },
        _ => {},
    }
}

proof fn lemma_stmts_kept(props: Seq<Seq<char>>, a: Vec<Stmt>, b: Vec<Stmt>)
    requires
        props.len() == 0,
        stmts_lifted(props, a, b),
    ensures
        same_stmts(a, b),
    decreases a,
{
    assert forall|i: int| 0 <= i < a@.len() implies same_stmt(#[trigger] a[i], b[i]) by {
        lemma_stmt_kept(props, a[i], b[i]);
    }
}

proof fn lemma_param_kept(props: Seq<Seq<char>>, a: Param, b: Param)
    requires
        props.len() == 0,
        param_lifted(props, a, b),
    ensures
        same_param(a, b),
    decreases a,
{
    lemma_opt_expr_kept(props, a.default, b.default);
}

proof fn lemma_let_binding_kept(props: Seq<Seq<char>>, a: LetBinding, b: LetBinding)
    requires
        props.len() == 0,
        let_binding_lifted(props, a, b),
    ensures
        same_let_binding(a, b),
    decreases a,
{
    lemma_expr_kept(props, *a.value, *b.value);
}

proof fn lemma_case_arm_kept(props: Seq<Seq<char>>, a: CaseArm, b: CaseArm)
    requires
        props.len() == 0,
        case_arm_lifted(props, a, b),
    ensures
        same_case_arm(a, b),
    decreases a,
{
    lemma_block_kept(props, a.body, b.body);
}

proof fn lemma_map_entry_kept(props: Seq<Seq<char>>, a: MapEntry, b: MapEntry)
    requires
        props.len() == 0,
        map_entry_lifted(props, a, b),
    ensures
        same_map_entry(a, b),
    decreases a,
{
    lemma_expr_kept(props, a.key, b.key);
    lemma_expr_kept(props, a.value, b.value);
}

proof fn lemma_str_part_kept(props: Seq<Seq<char>>, a: StrPart, b: StrPart)
    requires
        props.len() == 0,
        str_part_lifted(props, a, b),
    ensures
        same_str_part(a, b),
    decreases a,
{
    match a {
        StrPart::Interp(x) => {
            if let StrPart::Interp(y) = b {
                lemma_expr_kept(props, *x, *y);
            }
        },
        StrPart::InterpFmt { expr, .. } => {
            if let StrPart::InterpFmt { expr: expr2, .. } = b {
                lemma_expr_kept(props, *expr, *expr2);
            }
        },
        _ => {},
    }
}

proof fn lemma_opt_expr_kept(props: Seq<Seq<char>>, a: Option<Expr>, b: Option<Expr>)
    requires
        props.len() == 0,
        opt_expr_lifted(props, a, b),
    ensures
        same_opt_expr(a, b),
    decreases a,
{
    match a {
        Some(x) => {
            lemma_expr_kept(props, x, b->0);
        },
        None => {},
    }
}

// ---- laws -----------------------------------------------------------------------------

/// After lifting, no expression of a widget is a bare state name: every one of
/// them is read from the holder object.
pub proof fn law_no_bare_state_name_remains(a: WidgetDecl, b: WidgetDecl)
    requires
        widget_lifted(a, b),
        !state_names(a).contains("__cute_state"@),
    ensures
        clean_element(state_names(a), b.root),
        forall|k: int|
            1 <= k < b.state_fields@.len() ==> clean_expr(
                state_names(a),
                (#[trigger] b.state_fields@[k]).init_expr,
            ),
{
    let props = state_names(a);
    lemma_element_clean(props, a.root, b.root);
    let objects = object_fields(a.state_fields@, a.state_fields@.len() as int);
    assert forall|k: int| 1 <= k < b.state_fields@.len() implies clean_expr(
        props,
        (#[trigger] b.state_fields@[k]).init_expr,
    ) by {
        assert(object_lifted(props, objects[k - 1], b.state_fields@[k - 1 + 1]));
        lemma_expr_clean(props, objects[k - 1].init_expr, b.state_fields@[k].init_expr);
    }
}

/// The same of an expression.
pub proof fn law_no_bare_state_name_in_expressions(props: Seq<Seq<char>>, a: Expr, b: Expr)
    requires
        expr_lifted(props, a, b),
        !props.contains("__cute_state"@),
    ensures
        clean_expr(props, b),
{
    lemma_expr_clean(props, a, b);
}

/// Without state names, an expression stays as it is.
pub proof fn law_expressions_without_state_stay(props: Seq<Seq<char>>, a: Expr, b: Expr)
    requires
        expr_lifted(props, a, b),
        props.len() == 0,
    ensures
        same_expr(a, b),
{
    lemma_expr_kept(props, a, b);
}

} // verus!
