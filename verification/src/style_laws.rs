//! Laws of replacing styles in elements.

use crate::ast::{
    Block, CaseArm, Element, ElementMember, Expr, ExprKind, Item, LetBinding, MapEntry, Module,
    Param, Stmt, StrPart,
};
use crate::ast_copy::{
    same_block, same_case_arm, same_case_arms, same_element, same_element_member,
    same_element_members, same_expr, same_expr_kind, same_exprs, same_let_binding, same_map_entries,
    same_map_entry, same_opt_block, same_opt_boxed_expr, same_opt_expr, same_opt_let_binding,
    same_param, same_params, same_stmt, same_stmts, same_str_part, same_str_parts,
};
use crate::style::{
    block_styled, case_arm_styled, case_arms_styled, element_member_styled, element_members_styled,
    element_styled, entries_of, expr_entries, expr_kind_styled, expr_styled, exprs_styled,
    is_property, item_styled, let_binding_styled, map_entries_styled, map_entry_styled, member_span,
    member_styled, merged, module_styled, not_overridden, opt_block_styled, opt_boxed_expr_styled,
    opt_expr_styled, opt_let_binding_styled, param_styled, params_styled, spliced, stmt_styled,
    stmts_styled, str_part_styled, str_parts_styled, styled_count, StyleEnv,
};
use vstd::prelude::*;

verus! {

// ---- trees without styles -----------------------------------------------------------

/// No member of an element in the tree is a `style:` that the table resolves.
pub open spec fn unstyled_element(resolved: Map<Seq<char>, Vec<(String, Expr)>>, a: Element) -> bool
    decreases a,
{
    &&& unstyled_element_members(resolved, a.members)
}

pub open spec fn unstyled_expr(resolved: Map<Seq<char>, Vec<(String, Expr)>>, a: Expr) -> bool
    decreases a,
{
    &&& unstyled_expr_kind(resolved, a.kind)
}

pub open spec fn unstyled_element_members(
    resolved: Map<Seq<char>, Vec<(String, Expr)>>,
    a: Vec<ElementMember>,
) -> bool
    decreases a,
{
    forall|i: int| 0 <= i < a@.len() ==> unstyled_element_member(resolved, #[trigger] a[i])
}

pub open spec fn unstyled_expr_kind(
    resolved: Map<Seq<char>, Vec<(String, Expr)>>,
    a: ExprKind,
) -> bool
    decreases a,
{
    match a {
        ExprKind::Call { callee, args, block, .. } => {
            &&& unstyled_expr(resolved, *callee)
            &&& unstyled_exprs(resolved, args)
            &&& unstyled_opt_boxed_expr(resolved, block)
        },
        ExprKind::MethodCall { receiver, args, block, .. } => {
            &&& unstyled_expr(resolved, *receiver)
            &&& unstyled_exprs(resolved, args)
            &&& unstyled_opt_boxed_expr(resolved, block)
        },
        ExprKind::Member { receiver, .. } => unstyled_expr(resolved, *receiver),
        ExprKind::SafeMember { receiver, .. } => unstyled_expr(resolved, *receiver),
        ExprKind::SafeMethodCall { receiver, args, block, .. } => {
            &&& unstyled_expr(resolved, *receiver)
            &&& unstyled_exprs(resolved, args)
            &&& unstyled_opt_boxed_expr(resolved, block)
        },
        ExprKind::Index { receiver, index, .. } => {
            &&& unstyled_expr(resolved, *receiver)
            &&& unstyled_expr(resolved, *index)
        },
        ExprKind::Block(x) => unstyled_block(resolved, x),
        ExprKind::Lambda { params, body, .. } => {
            &&& unstyled_params(resolved, params)
            &&& unstyled_block(resolved, body)
        },
        ExprKind::Unary { expr, .. } => unstyled_expr(resolved, *expr),
        ExprKind::Binary { lhs, rhs, .. } => {
            &&& unstyled_expr(resolved, *lhs)
            &&& unstyled_expr(resolved, *rhs)
        },
        ExprKind::Try(x) => unstyled_expr(resolved, *x),
        ExprKind::Await(x) => unstyled_expr(resolved, *x),
        ExprKind::If { cond, then_b, else_b, let_binding, .. } => {
            &&& unstyled_expr(resolved, *cond)
            &&& unstyled_block(resolved, then_b)
            &&& unstyled_opt_block(resolved, else_b)
            &&& unstyled_opt_let_binding(resolved, let_binding)
        },
        ExprKind::Case { scrutinee, arms, .. } => {
            &&& unstyled_expr(resolved, *scrutinee)
            &&& unstyled_case_arms(resolved, arms)
        },
        ExprKind::Kwarg { value, .. } => unstyled_expr(resolved, *value),
        ExprKind::Element(x) => unstyled_element(resolved, x),
        ExprKind::Array(x) => unstyled_exprs(resolved, x),
        ExprKind::MapLit(x) => unstyled_map_entries(resolved, x),
        ExprKind::Range { start, end, .. } => {
            &&& unstyled_expr(resolved, *start)
            &&& unstyled_expr(resolved, *end)
        },
        ExprKind::Str(x) => unstyled_str_parts(resolved, x),
        _ => true,
    }
}

pub open spec fn unstyled_element_member(
    resolved: Map<Seq<char>, Vec<(String, Expr)>>,
    a: ElementMember,
) -> bool
    decreases a,
{
    match a {
        ElementMember::Property { key, value, .. } => if key@ == "style"@ {
            expr_entries(resolved, value) is None
        } else {
            unstyled_expr(resolved, value)
        },
        ElementMember::Child(x) => unstyled_element(resolved, x),
        ElementMember::Stmt(x) => unstyled_stmt(resolved, x),
    }
}

pub open spec fn unstyled_exprs(resolved: Map<Seq<char>, Vec<(String, Expr)>>, a: Vec<Expr>) -> bool
    decreases a,
{
    forall|i: int| 0 <= i < a@.len() ==> unstyled_expr(resolved, #[trigger] a[i])
}

pub open spec fn unstyled_opt_boxed_expr(
    resolved: Map<Seq<char>, Vec<(String, Expr)>>,
    a: Option<Box<Expr>>,
) -> bool
    decreases a,
{
    match a {
        Some(x) => unstyled_expr(resolved, *x),
        None => true,
    }
}

pub open spec fn unstyled_block(resolved: Map<Seq<char>, Vec<(String, Expr)>>, a: Block) -> bool
    decreases a,
{
    &&& unstyled_stmts(resolved, a.stmts)
    &&& unstyled_opt_boxed_expr(resolved, a.trailing)
}

pub open spec fn unstyled_params(
    resolved: Map<Seq<char>, Vec<(String, Expr)>>,
    a: Vec<Param>,
) -> bool
    decreases a,
{
    forall|i: int| 0 <= i < a@.len() ==> unstyled_param(resolved, #[trigger] a[i])
}

pub open spec fn unstyled_opt_block(
    resolved: Map<Seq<char>, Vec<(String, Expr)>>,
    a: Option<Block>,
) -> bool
    decreases a,
{
    match a {
        Some(x) => unstyled_block(resolved, x),
        None => true,
    }
}

pub open spec fn unstyled_opt_let_binding(
    resolved: Map<Seq<char>, Vec<(String, Expr)>>,
    a: Option<LetBinding>,
) -> bool
    decreases a,
{
    match a {
        Some(x) => unstyled_let_binding(resolved, x),
        None => true,
    }
}

pub open spec fn unstyled_case_arms(
    resolved: Map<Seq<char>, Vec<(String, Expr)>>,
    a: Vec<CaseArm>,
) -> bool
    decreases a,
{
    forall|i: int| 0 <= i < a@.len() ==> unstyled_case_arm(resolved, #[trigger] a[i])
}

pub open spec fn unstyled_map_entries(
    resolved: Map<Seq<char>, Vec<(String, Expr)>>,
    a: Vec<MapEntry>,
) -> bool
    decreases a,
{
    forall|i: int| 0 <= i < a@.len() ==> unstyled_map_entry(resolved, #[trigger] a[i])
}

pub open spec fn unstyled_str_parts(
    resolved: Map<Seq<char>, Vec<(String, Expr)>>,
    a: Vec<StrPart>,
) -> bool
    decreases a,
{
    forall|i: int| 0 <= i < a@.len() ==> unstyled_str_part(resolved, #[trigger] a[i])
}

pub open spec fn unstyled_stmt(resolved: Map<Seq<char>, Vec<(String, Expr)>>, a: Stmt) -> bool
    decreases a,
{
    match a {
        Stmt::Let { value, .. } => unstyled_expr(resolved, value),
        Stmt::Var { value, .. } => unstyled_expr(resolved, value),
        Stmt::Expr(x) => unstyled_expr(resolved, x),
        Stmt::Return { value, .. } => unstyled_opt_expr(resolved, value),
        Stmt::Emit { args, .. } => unstyled_exprs(resolved, args),
        Stmt::Assign { target, value, .. } => {
            &&& unstyled_expr(resolved, target)
            &&& unstyled_expr(resolved, value)
        },
        Stmt::For { iter, body, .. } => {
            &&& unstyled_expr(resolved, iter)
            &&& unstyled_block(resolved, body)
        },
        Stmt::While { cond, body, .. } => {
            &&& unstyled_expr(resolved, cond)
            &&& unstyled_block(resolved, body)
        },
        Stmt::Batch { body, .. } => unstyled_block(resolved, body),
        _ => true,
    }
}

pub open spec fn unstyled_stmts(resolved: Map<Seq<char>, Vec<(String, Expr)>>, a: Vec<Stmt>) -> bool
    decreases a,
{
    forall|i: int| 0 <= i < a@.len() ==> unstyled_stmt(resolved, #[trigger] a[i])
}

pub open spec fn unstyled_param(resolved: Map<Seq<char>, Vec<(String, Expr)>>, a: Param) -> bool
    decreases a,
{
    &&& unstyled_opt_expr(resolved, a.default)
}

pub open spec fn unstyled_let_binding(
    resolved: Map<Seq<char>, Vec<(String, Expr)>>,
    a: LetBinding,
) -> bool
    decreases a,
{
    &&& unstyled_expr(resolved, *a.value)
}

pub open spec fn unstyled_case_arm(
    resolved: Map<Seq<char>, Vec<(String, Expr)>>,
    a: CaseArm,
) -> bool
    decreases a,
{
    &&& unstyled_block(resolved, a.body)
}

pub open spec fn unstyled_map_entry(
    resolved: Map<Seq<char>, Vec<(String, Expr)>>,
    a: MapEntry,
) -> bool
    decreases a,
{
    &&& unstyled_expr(resolved, a.key)
    &&& unstyled_expr(resolved, a.value)
}

pub open spec fn unstyled_str_part(
    resolved: Map<Seq<char>, Vec<(String, Expr)>>,
    a: StrPart,
) -> bool
    decreases a,
{
    match a {
        StrPart::Interp(x) => unstyled_expr(resolved, *x),
        StrPart::InterpFmt { expr, .. } => unstyled_expr(resolved, *expr),
        _ => true,
    }
}

pub open spec fn unstyled_opt_expr(
    resolved: Map<Seq<char>, Vec<(String, Expr)>>,
    a: Option<Expr>,
) -> bool
    decreases a,
{
    match a {
        Some(x) => unstyled_expr(resolved, x),
        None => true,
    }
}

/// The entry holds no style that the table resolves.
pub open spec fn plain_entry(
    resolved: Map<Seq<char>, Vec<(String, Expr)>>,
    e: (Seq<char>, Expr),
) -> bool {
    if e.0 == "style"@ {
        expr_entries(resolved, e.1) is None
    } else {
        unstyled_expr(resolved, e.1)
    }
}

/// No entry of the table holds a style that the table resolves.
pub open spec fn plain_table(resolved: Map<Seq<char>, Vec<(String, Expr)>>) -> bool {
    forall|name: Seq<char>, k: int|
        resolved.contains_key(name) && 0 <= k < resolved[name]@.len() ==> plain_entry(
            resolved,
            #[trigger] entries_of(resolved[name]@)[k],
        )
}

// ---- entries ------------------------------------------------------------------------

proof fn lemma_rest_plain(
    resolved: Map<Seq<char>, Vec<(String, Expr)>>,
    l: Seq<(Seq<char>, Expr)>,
    r: Seq<(Seq<char>, Expr)>,
)
    requires
        forall|k: int| 0 <= k < l.len() ==> plain_entry(resolved, #[trigger] l[k]),
    ensures
        forall|k: int|
            0 <= k < not_overridden(l, r).len() ==> plain_entry(
                resolved,
                #[trigger] not_overridden(l, r)[k],
            ),
    decreases l.len(),
{
    if l.len() > 0 {
        let d = l.drop_last();
        assert forall|k: int| 0 <= k < d.len() implies plain_entry(resolved, #[trigger] d[k]) by {
            assert(d[k] == l[k]);
        }
        lemma_rest_plain(resolved, d, r);
        assert(plain_entry(resolved, l[l.len() - 1]));
        assert forall|k: int| 0 <= k < not_overridden(l, r).len() implies plain_entry(
            resolved,
            #[trigger] not_overridden(l, r)[k],
        ) by {
            if k < not_overridden(d, r).len() {
                assert(not_overridden(l, r)[k] == not_overridden(d, r)[k]);
            }
        }
    }
}

/// What a `style:` value stands for holds no style, where the table holds none.
proof fn lemma_entries_plain(resolved: Map<Seq<char>, Vec<(String, Expr)>>, e: Expr)
    requires
        plain_table(resolved),
        expr_entries(resolved, e) is Some,
    ensures
        forall|k: int|
            0 <= k < expr_entries(resolved, e)->0.len() ==> plain_entry(
                resolved,
                #[trigger] expr_entries(resolved, e)->0[k],
            ),
    decreases e,
{
    match e.kind {
        ExprKind::Binary { op, lhs, rhs } => {
            lemma_entries_plain(resolved, *lhs);
            lemma_entries_plain(resolved, *rhs);
            let l = expr_entries(resolved, *lhs)->0;
            let r = expr_entries(resolved, *rhs)->0;
            lemma_rest_plain(resolved, l, r);
            let w = not_overridden(l, r);
            assert forall|k: int| 0 <= k < merged(l, r).len() implies plain_entry(
                resolved,
                #[trigger] merged(l, r)[k],
            ) by {
                if k < w.len() {
                    assert(merged(l, r)[k] == w[k]);
                } else {
                    assert(merged(l, r)[k] == r[k - w.len()]);
                }
            }
        },
        _ => {},
    }
}

/// A copy of a `style:` value stands for the same.
proof fn lemma_entries_same(resolved: Map<Seq<char>, Vec<(String, Expr)>>, a: Expr, b: Expr)
    requires
        same_expr(a, b),
    ensures
        expr_entries(resolved, b) == expr_entries(resolved, a),
    decreases a,
{
    match a.kind {
        ExprKind::Binary { op, lhs, rhs } => {
            if let ExprKind::Binary { lhs: lhs2, rhs: rhs2, .. } = b.kind {
                lemma_entries_same(resolved, *lhs, *lhs2);
                lemma_entries_same(resolved, *rhs, *rhs2);
            }
        },
        _ => {},
    }
}

proof fn lemma_entry_unstyled(
    resolved: Map<Seq<char>, Vec<(String, Expr)>>,
    e: (Seq<char>, Expr),
    span: crate::ast::Span,
    b: ElementMember,
)
    requires
        plain_entry(resolved, e),
        is_property(e, span, b),
    ensures
        unstyled_element_member(resolved, b),
{
    if let ElementMember::Property { key, value, .. } = b {
        if e.0 == "style"@ {
            lemma_entries_same(resolved, e.1, value);
        } else {
            lemma_expr_copied(resolved, e.1, value);
        }
    }
}

/// The member that member `j` of the result comes from.
proof fn lemma_source(
    resolved: Map<Seq<char>, Vec<(String, Expr)>>,
    members: Seq<ElementMember>,
    n: int,
    j: int,
) -> (i: int)
    requires
        0 <= n <= members.len(),
        0 <= j < styled_count(resolved, members, n),
    ensures
        0 <= i < n,
        styled_count(resolved, members, i) <= j,
        match spliced(resolved, members[i]) {
            Some(e) => j - styled_count(resolved, members, i) < e.len(),
            None => j == styled_count(resolved, members, i),
        },
    decreases n,
{
    if j >= styled_count(resolved, members, n - 1) {
        n - 1
    } else {
        lemma_source(resolved, members, n - 1, j)
    }
}

/// Without styles, every member stays in its place.
proof fn lemma_count_kept(
    resolved: Map<Seq<char>, Vec<(String, Expr)>>,
    members: Seq<ElementMember>,
    n: int,
)
    requires
        0 <= n <= members.len(),
        forall|i: int| 0 <= i < members.len() ==> spliced(resolved, #[trigger] members[i]) is None,
    ensures
        styled_count(resolved, members, n) == n,
    decreases n,
{
    if n > 0 {
        lemma_count_kept(resolved, members, n - 1);
    }
}

// ---- copies -------------------------------------------------------------------------

proof fn lemma_element_copied(resolved: Map<Seq<char>, Vec<(String, Expr)>>, a: Element, b: Element)
    requires
        same_element(a, b),
        unstyled_element(resolved, a),
    ensures
        unstyled_element(resolved, b),
    decreases a,
{
    lemma_element_members_copied(resolved, a.members, b.members);
}

proof fn lemma_expr_copied(resolved: Map<Seq<char>, Vec<(String, Expr)>>, a: Expr, b: Expr)
    requires
        same_expr(a, b),
        unstyled_expr(resolved, a),
    ensures
        unstyled_expr(resolved, b),
    decreases a,
{
    lemma_expr_kind_copied(resolved, a.kind, b.kind);
}

proof fn lemma_element_members_copied(
    resolved: Map<Seq<char>, Vec<(String, Expr)>>,
    a: Vec<ElementMember>,
    b: Vec<ElementMember>,
)
    requires
        same_element_members(a, b),
        unstyled_element_members(resolved, a),
    ensures
        unstyled_element_members(resolved, b),
    decreases a,
{
    assert forall|i: int| 0 <= i < b@.len() implies unstyled_element_member(resolved, #[trigger] b[i]) by {
        lemma_element_member_copied(resolved, a[i], b[i]);
    }
}

proof fn lemma_expr_kind_copied(
    resolved: Map<Seq<char>, Vec<(String, Expr)>>,
    a: ExprKind,
    b: ExprKind,
)
    requires
        same_expr_kind(a, b),
        unstyled_expr_kind(resolved, a),
    ensures
        unstyled_expr_kind(resolved, b),
    decreases a,
{
    match a {
        ExprKind::Call { callee, args, block, .. } => {
            if let ExprKind::Call { callee: callee2, args: args2, block: block2, .. } = b {
                lemma_expr_copied(resolved, *callee, *callee2);
                lemma_exprs_copied(resolved, args, args2);
                lemma_opt_boxed_expr_copied(resolved, block, block2);
            }
        },
        ExprKind::MethodCall { receiver, args, block, .. } => {
            if let ExprKind::MethodCall { receiver: receiver2, args: args2, block: block2, .. } = b {
                lemma_expr_copied(resolved, *receiver, *receiver2);
                lemma_exprs_copied(resolved, args, args2);
                lemma_opt_boxed_expr_copied(resolved, block, block2);
            }
        },
        ExprKind::Member { receiver, .. } => {
            if let ExprKind::Member { receiver: receiver2, .. } = b {
                lemma_expr_copied(resolved, *receiver, *receiver2);
            }
        },
        ExprKind::SafeMember { receiver, .. } => {
            if let ExprKind::SafeMember { receiver: receiver2, .. } = b {
                lemma_expr_copied(resolved, *receiver, *receiver2);
            }
        },
        ExprKind::SafeMethodCall { receiver, args, block, .. } => {
            if let ExprKind::SafeMethodCall { receiver: receiver2, args: args2, block: block2, .. } = b {
                lemma_expr_copied(resolved, *receiver, *receiver2);
                lemma_exprs_copied(resolved, args, args2);
                lemma_opt_boxed_expr_copied(resolved, block, block2);
            }
        },
        ExprKind::Index { receiver, index, .. } => {
            if let ExprKind::Index { receiver: receiver2, index: index2, .. } = b {
                lemma_expr_copied(resolved, *receiver, *receiver2);
                lemma_expr_copied(resolved, *index, *index2);
            }
        },
        ExprKind::Block(x) => {
            if let ExprKind::Block(y) = b {
                lemma_block_copied(resolved, x, y);
            }
        },
        ExprKind::Lambda { params, body, .. } => {
            if let ExprKind::Lambda { params: params2, body: body2, .. } = b {
                lemma_params_copied(resolved, params, params2);
                lemma_block_copied(resolved, body, body2);
            }
        },
        ExprKind::Unary { expr, .. } => {
            if let ExprKind::Unary { expr: expr2, .. } = b {
                lemma_expr_copied(resolved, *expr, *expr2);
            }
        },
        ExprKind::Binary { lhs, rhs, .. } => {
            if let ExprKind::Binary { lhs: lhs2, rhs: rhs2, .. } = b {
                lemma_expr_copied(resolved, *lhs, *lhs2);
                lemma_expr_copied(resolved, *rhs, *rhs2);
            }
        },
        ExprKind::Try(x) => {
            if let ExprKind::Try(y) = b {
                lemma_expr_copied(resolved, *x, *y);
            }
        },
        ExprKind::Await(x) => {
            if let ExprKind::Await(y) = b {
                lemma_expr_copied(resolved, *x, *y);
            }
        },
        ExprKind::If { cond, then_b, else_b, let_binding, .. } => {
            if let ExprKind::If { cond: cond2, then_b: then_b2, else_b: else_b2, let_binding: let_binding2, .. } = b {
                lemma_expr_copied(resolved, *cond, *cond2);
                lemma_block_copied(resolved, then_b, then_b2);
                lemma_opt_block_copied(resolved, else_b, else_b2);
                lemma_opt_let_binding_copied(resolved, let_binding, let_binding2);
            }
        },
        ExprKind::Case { scrutinee, arms, .. } => {
            if let ExprKind::Case { scrutinee: scrutinee2, arms: arms2, .. } = b {
                lemma_expr_copied(resolved, *scrutinee, *scrutinee2);
                lemma_case_arms_copied(resolved, arms, arms2);
            }
        },
        ExprKind::Kwarg { value, .. } => {
            if let ExprKind::Kwarg { value: value2, .. } = b {
                lemma_expr_copied(resolved, *value, *value2);
            }
        },
        ExprKind::Element(x) => {
            if let ExprKind::Element(y) = b {
                lemma_element_copied(resolved, x, y);
            }
        },
        ExprKind::Array(x) => {
            if let ExprKind::Array(y) = b {
                lemma_exprs_copied(resolved, x, y);
            }
        },
        ExprKind::MapLit(x) => {
            if let ExprKind::MapLit(y) = b {
                lemma_map_entries_copied(resolved, x, y);
            }
        },
        ExprKind::Range { start, end, .. } => {
            if let ExprKind::Range { start: start2, end: end2, .. } = b {
                lemma_expr_copied(resolved, *start, *start2);
                lemma_expr_copied(resolved, *end, *end2);
            }
        },
        ExprKind::Str(x) => {
            if let ExprKind::Str(y) = b {
                lemma_str_parts_copied(resolved, x, y);
            }
        },
        _ => {},
    }
}

proof fn lemma_element_member_copied(
    resolved: Map<Seq<char>, Vec<(String, Expr)>>,
    a: ElementMember,
    b: ElementMember,
)
    requires
        same_element_member(a, b),
        unstyled_element_member(resolved, a),
    ensures
        unstyled_element_member(resolved, b),
    decreases a,
{
    match a {
        ElementMember::Property { key, value, .. } => {
            if let ElementMember::Property { value: value2, .. } = b {
                if key@ == "style"@ {
                    lemma_entries_same(resolved, value, value2);
                } else {
                    lemma_expr_copied(resolved, value, value2);
                }
            }
        },
        ElementMember::Child(x) => {
            if let ElementMember::Child(y) = b {
                lemma_element_copied(resolved, x, y);
            }
        },
        ElementMember::Stmt(x) => {
            if let ElementMember::Stmt(y) = b {
                lemma_stmt_copied(resolved, x, y);
            }
        },
    }
}

proof fn lemma_exprs_copied(
    resolved: Map<Seq<char>, Vec<(String, Expr)>>,
    a: Vec<Expr>,
    b: Vec<Expr>,
)
    requires
        same_exprs(a, b),
        unstyled_exprs(resolved, a),
    ensures
        unstyled_exprs(resolved, b),
    decreases a,
{
    assert forall|i: int| 0 <= i < b@.len() implies unstyled_expr(resolved, #[trigger] b[i]) by {
        lemma_expr_copied(resolved, a[i], b[i]);
    }
}

proof fn lemma_opt_boxed_expr_copied(
    resolved: Map<Seq<char>, Vec<(String, Expr)>>,
    a: Option<Box<Expr>>,
    b: Option<Box<Expr>>,
)
    requires
        same_opt_boxed_expr(a, b),
        unstyled_opt_boxed_expr(resolved, a),
    ensures
        unstyled_opt_boxed_expr(resolved, b),
    decreases a,
{
    match a {
        Some(x) => {
            lemma_expr_copied(resolved, *x, *b->0);
        },
        None => {},
    }
}

proof fn lemma_block_copied(resolved: Map<Seq<char>, Vec<(String, Expr)>>, a: Block, b: Block)
    requires
        same_block(a, b),
        unstyled_block(resolved, a),
    ensures
        unstyled_block(resolved, b),
    decreases a,
{
    lemma_stmts_copied(resolved, a.stmts, b.stmts);
    lemma_opt_boxed_expr_copied(resolved, a.trailing, b.trailing);
}

proof fn lemma_params_copied(
    resolved: Map<Seq<char>, Vec<(String, Expr)>>,
    a: Vec<Param>,
    b: Vec<Param>,
)
    requires
        same_params(a, b),
        unstyled_params(resolved, a),
    ensures
        unstyled_params(resolved, b),
    decreases a,
{
    assert forall|i: int| 0 <= i < b@.len() implies unstyled_param(resolved, #[trigger] b[i]) by {
        lemma_param_copied(resolved, a[i], b[i]);
    }
}

proof fn lemma_opt_block_copied(
    resolved: Map<Seq<char>, Vec<(String, Expr)>>,
    a: Option<Block>,
    b: Option<Block>,
)
    requires
        same_opt_block(a, b),
        unstyled_opt_block(resolved, a),
    ensures
        unstyled_opt_block(resolved, b),
    decreases a,
{
    match a {
        Some(x) => {
            lemma_block_copied(resolved, x, b->0);
        },
        None => {},
    }
}

proof fn lemma_opt_let_binding_copied(
    resolved: Map<Seq<char>, Vec<(String, Expr)>>,
    a: Option<LetBinding>,
    b: Option<LetBinding>,
)
    requires
        same_opt_let_binding(a, b),
        unstyled_opt_let_binding(resolved, a),
    ensures
        unstyled_opt_let_binding(resolved, b),
    decreases a,
{
    match a {
        Some(x) => {
            lemma_let_binding_copied(resolved, x, b->0);
        },
        None => {},
    }
}

proof fn lemma_case_arms_copied(
    resolved: Map<Seq<char>, Vec<(String, Expr)>>,
    a: Vec<CaseArm>,
    b: Vec<CaseArm>,
)
    requires
        same_case_arms(a, b),
        unstyled_case_arms(resolved, a),
    ensures
        unstyled_case_arms(resolved, b),
    decreases a,
{
    assert forall|i: int| 0 <= i < b@.len() implies unstyled_case_arm(resolved, #[trigger] b[i]) by {
        lemma_case_arm_copied(resolved, a[i], b[i]);
    }
}

proof fn lemma_map_entries_copied(
    resolved: Map<Seq<char>, Vec<(String, Expr)>>,
    a: Vec<MapEntry>,
    b: Vec<MapEntry>,
)
    requires
        same_map_entries(a, b),
        unstyled_map_entries(resolved, a),
    ensures
        unstyled_map_entries(resolved, b),
    decreases a,
{
    assert forall|i: int| 0 <= i < b@.len() implies unstyled_map_entry(resolved, #[trigger] b[i]) by {
        lemma_map_entry_copied(resolved, a[i], b[i]);
    }
}

proof fn lemma_str_parts_copied(
    resolved: Map<Seq<char>, Vec<(String, Expr)>>,
    a: Vec<StrPart>,
    b: Vec<StrPart>,
)
    requires
        same_str_parts(a, b),
        unstyled_str_parts(resolved, a),
    ensures
        unstyled_str_parts(resolved, b),
    decreases a,
{
    assert forall|i: int| 0 <= i < b@.len() implies unstyled_str_part(resolved, #[trigger] b[i]) by {
        lemma_str_part_copied(resolved, a[i], b[i]);
    }
}

proof fn lemma_stmt_copied(resolved: Map<Seq<char>, Vec<(String, Expr)>>, a: Stmt, b: Stmt)
    requires
        same_stmt(a, b),
        unstyled_stmt(resolved, a),
    ensures
        unstyled_stmt(resolved, b),
    decreases a,
{
    match a {
        Stmt::Let { value, .. } => {
            if let Stmt::Let { value: value2, .. } = b {
                lemma_expr_copied(resolved, value, value2);
            }
        },
        Stmt::Var { value, .. } => {
            if let Stmt::Var { value: value2, .. } = b {
                lemma_expr_copied(resolved, value, value2);
            }
        },
        Stmt::Expr(x) => {
            if let Stmt::Expr(y) = b {
                lemma_expr_copied(resolved, x, y);
            }
        },
        Stmt::Return { value, .. } => {
            if let Stmt::Return { value: value2, .. } = b {
                lemma_opt_expr_copied(resolved, value, value2);
            }
        },
        Stmt::Emit { args, .. } => {
            if let Stmt::Emit { args: args2, .. } = b {
                lemma_exprs_copied(resolved, args, args2);
            }
        },
        Stmt::Assign { target, value, .. } => {
            if let Stmt::Assign { target: target2, value: value2, .. } = b {
                lemma_expr_copied(resolved, target, target2);
                lemma_expr_copied(resolved, value, value2);
            }
        },
        Stmt::For { iter, body, .. } => {
            if let Stmt::For { iter: iter2, body: body2, .. } = b {
                lemma_expr_copied(resolved, iter, iter2);
                lemma_block_copied(resolved, body, body2);
            }
        },
        Stmt::While { cond, body, .. } => {
            if let Stmt::While { cond: cond2, body: body2, .. } = b {
                lemma_expr_copied(resolved, cond, cond2);
                lemma_block_copied(resolved, body, body2);
            }
        },
        Stmt::Batch { body, .. } => {
            if let Stmt::Batch { body: body2, .. } = b {
                lemma_block_copied(resolved, body, body2);
            }
        },
        _ => {},
    }
}

proof fn lemma_stmts_copied(
    resolved: Map<Seq<char>, Vec<(String, Expr)>>,
    a: Vec<Stmt>,
    b: Vec<Stmt>,
)
    requires
        same_stmts(a, b),
        unstyled_stmts(resolved, a),
    ensures
        unstyled_stmts(resolved, b),
    decreases a,
{
    assert forall|i: int| 0 <= i < b@.len() implies unstyled_stmt(resolved, #[trigger] b[i]) by {
        lemma_stmt_copied(resolved, a[i], b[i]);
    }
}

proof fn lemma_param_copied(resolved: Map<Seq<char>, Vec<(String, Expr)>>, a: Param, b: Param)
    requires
        same_param(a, b),
        unstyled_param(resolved, a),
    ensures
        unstyled_param(resolved, b),
    decreases a,
{
    lemma_opt_expr_copied(resolved, a.default, b.default);
}

proof fn lemma_let_binding_copied(
    resolved: Map<Seq<char>, Vec<(String, Expr)>>,
    a: LetBinding,
    b: LetBinding,
)
    requires
        same_let_binding(a, b),
        unstyled_let_binding(resolved, a),
    ensures
        unstyled_let_binding(resolved, b),
    decreases a,
{
    lemma_expr_copied(resolved, *a.value, *b.value);
}

proof fn lemma_case_arm_copied(
    resolved: Map<Seq<char>, Vec<(String, Expr)>>,
    a: CaseArm,
    b: CaseArm,
)
    requires
        same_case_arm(a, b),
        unstyled_case_arm(resolved, a),
    ensures
        unstyled_case_arm(resolved, b),
    decreases a,
{
    lemma_block_copied(resolved, a.body, b.body);
}

proof fn lemma_map_entry_copied(
    resolved: Map<Seq<char>, Vec<(String, Expr)>>,
    a: MapEntry,
    b: MapEntry,
)
    requires
        same_map_entry(a, b),
        unstyled_map_entry(resolved, a),
    ensures
        unstyled_map_entry(resolved, b),
    decreases a,
{
    lemma_expr_copied(resolved, a.key, b.key);
    lemma_expr_copied(resolved, a.value, b.value);
}

proof fn lemma_str_part_copied(
    resolved: Map<Seq<char>, Vec<(String, Expr)>>,
    a: StrPart,
    b: StrPart,
)
    requires
        same_str_part(a, b),
        unstyled_str_part(resolved, a),
    ensures
        unstyled_str_part(resolved, b),
    decreases a,
{
    match a {
        StrPart::Interp(x) => {
            if let StrPart::Interp(y) = b {
                lemma_expr_copied(resolved, *x, *y);
            }
        },
        StrPart::InterpFmt { expr, .. } => {
            if let StrPart::InterpFmt { expr: expr2, .. } = b {
                lemma_expr_copied(resolved, *expr, *expr2);
            }
        },
        _ => {},
    }
}

proof fn lemma_opt_expr_copied(
    resolved: Map<Seq<char>, Vec<(String, Expr)>>,
    a: Option<Expr>,
    b: Option<Expr>,
)
    requires
        same_opt_expr(a, b),
        unstyled_opt_expr(resolved, a),
    ensures
        unstyled_opt_expr(resolved, b),
    decreases a,
{
    match a {
        Some(x) => {
            lemma_expr_copied(resolved, x, b->0);
        },
        None => {},
    }
}

// ---- the pass leaves no style -----------------------------------------------------------

proof fn lemma_element_replaced(
    resolved: Map<Seq<char>, Vec<(String, Expr)>>,
    a: Element,
    b: Element,
)
    requires
        plain_table(resolved),
        element_styled(resolved, a, b),
    ensures
        unstyled_element(resolved, b),
    decreases a,
{
    lemma_element_members_replaced(resolved, a.members, b.members);
}

proof fn lemma_expr_replaced(resolved: Map<Seq<char>, Vec<(String, Expr)>>, a: Expr, b: Expr)
    requires
        plain_table(resolved),
        expr_styled(resolved, a, b),
    ensures
        unstyled_expr(resolved, b),
    decreases a,
{
    lemma_expr_kind_replaced(resolved, a.kind, b.kind);
}

proof fn lemma_element_members_replaced(
    resolved: Map<Seq<char>, Vec<(String, Expr)>>,
    a: Vec<ElementMember>,
    b: Vec<ElementMember>,
)
    requires
        plain_table(resolved),
        element_members_styled(resolved, a, b),
    ensures
        unstyled_element_members(resolved, b),
    decreases a,
{
    let n = a@.len() as int;
    assert forall|j: int| 0 <= j < b@.len() implies unstyled_element_member(resolved, #[trigger] b[j]) by {
        let i = lemma_source(resolved, a@, n, j);
        let at = styled_count(resolved, a@, i);
        assert(member_styled(resolved, a[i], b@, at));
        match spliced(resolved, a[i]) {
            Some(e) => {
                let k = j - at;
                assert(is_property(e[k], member_span(a[i]), b@[at + k]));
                if let ElementMember::Property { value, .. } = a[i] {
                    lemma_entries_plain(resolved, value);
                }
                lemma_entry_unstyled(resolved, e[k], member_span(a[i]), b[j]);
            },
            None => {
                assert(b[j] == b@[at]);
                lemma_element_member_replaced(resolved, a[i], b[j]);
            },
        }
    }
}

proof fn lemma_expr_kind_replaced(
    resolved: Map<Seq<char>, Vec<(String, Expr)>>,
    a: ExprKind,
    b: ExprKind,
)
    requires
        plain_table(resolved),
        expr_kind_styled(resolved, a, b),
    ensures
        unstyled_expr_kind(resolved, b),
    decreases a,
{
    match a {
        ExprKind::Call { callee, args, block, .. } => {
            if let ExprKind::Call { callee: callee2, args: args2, block: block2, .. } = b {
                lemma_expr_replaced(resolved, *callee, *callee2);
                lemma_exprs_replaced(resolved, args, args2);
                lemma_opt_boxed_expr_replaced(resolved, block, block2);
            }
        },
        ExprKind::MethodCall { receiver, args, block, .. } => {
            if let ExprKind::MethodCall { receiver: receiver2, args: args2, block: block2, .. } = b {
                lemma_expr_replaced(resolved, *receiver, *receiver2);
                lemma_exprs_replaced(resolved, args, args2);
                lemma_opt_boxed_expr_replaced(resolved, block, block2);
            }
        },
        ExprKind::Member { receiver, .. } => {
            if let ExprKind::Member { receiver: receiver2, .. } = b {
                lemma_expr_replaced(resolved, *receiver, *receiver2);
            }
        },
        ExprKind::SafeMember { receiver, .. } => {
            if let ExprKind::SafeMember { receiver: receiver2, .. } = b {
                lemma_expr_replaced(resolved, *receiver, *receiver2);
            }
        },
        ExprKind::SafeMethodCall { receiver, args, block, .. } => {
            if let ExprKind::SafeMethodCall { receiver: receiver2, args: args2, block: block2, .. } = b {
                lemma_expr_replaced(resolved, *receiver, *receiver2);
                lemma_exprs_replaced(resolved, args, args2);
                lemma_opt_boxed_expr_replaced(resolved, block, block2);
            }
        },
        ExprKind::Index { receiver, index, .. } => {
            if let ExprKind::Index { receiver: receiver2, index: index2, .. } = b {
                lemma_expr_replaced(resolved, *receiver, *receiver2);
                lemma_expr_replaced(resolved, *index, *index2);
            }
        },
        ExprKind::Block(x) => {
            if let ExprKind::Block(y) = b {
                lemma_block_replaced(resolved, x, y);
            }
        },
        ExprKind::Lambda { params, body, .. } => {
            if let ExprKind::Lambda { params: params2, body: body2, .. } = b {
                lemma_params_replaced(resolved, params, params2);
                lemma_block_replaced(resolved, body, body2);
            }
        },
        ExprKind::Unary { expr, .. } => {
            if let ExprKind::Unary { expr: expr2, .. } = b {
                lemma_expr_replaced(resolved, *expr, *expr2);
            }
        },
        ExprKind::Binary { lhs, rhs, .. } => {
            if let ExprKind::Binary { lhs: lhs2, rhs: rhs2, .. } = b {
                lemma_expr_replaced(resolved, *lhs, *lhs2);
                lemma_expr_replaced(resolved, *rhs, *rhs2);
            }
        },
        ExprKind::Try(x) => {
            if let ExprKind::Try(y) = b {
                lemma_expr_replaced(resolved, *x, *y);
            }
        },
        ExprKind::Await(x) => {
            if let ExprKind::Await(y) = b {
                lemma_expr_replaced(resolved, *x, *y);
            }
        },
        ExprKind::If { cond, then_b, else_b, let_binding, .. } => {
            if let ExprKind::If { cond: cond2, then_b: then_b2, else_b: else_b2, let_binding: let_binding2, .. } = b {
                lemma_expr_replaced(resolved, *cond, *cond2);
                lemma_block_replaced(resolved, then_b, then_b2);
                lemma_opt_block_replaced(resolved, else_b, else_b2);
                lemma_opt_let_binding_replaced(resolved, let_binding, let_binding2);
            }
        },
        ExprKind::Case { scrutinee, arms, .. } => {
            if let ExprKind::Case { scrutinee: scrutinee2, arms: arms2, .. } = b {
                lemma_expr_replaced(resolved, *scrutinee, *scrutinee2);
                lemma_case_arms_replaced(resolved, arms, arms2);
            }
        },
        ExprKind::Kwarg { value, .. } => {
            if let ExprKind::Kwarg { value: value2, .. } = b {
                lemma_expr_replaced(resolved, *value, *value2);
            }
        },
        ExprKind::Element(x) => {
            if let ExprKind::Element(y) = b {
                lemma_element_replaced(resolved, x, y);
            }
        },
        ExprKind::Array(x) => {
            if let ExprKind::Array(y) = b {
                lemma_exprs_replaced(resolved, x, y);
            }
        },
        ExprKind::MapLit(x) => {
            if let ExprKind::MapLit(y) = b {
                lemma_map_entries_replaced(resolved, x, y);
            }
        },
        ExprKind::Range { start, end, .. } => {
            if let ExprKind::Range { start: start2, end: end2, .. } = b {
                lemma_expr_replaced(resolved, *start, *start2);
                lemma_expr_replaced(resolved, *end, *end2);
            }
        },
        ExprKind::Str(x) => {
            if let ExprKind::Str(y) = b {
                lemma_str_parts_replaced(resolved, x, y);
            }
        },
        _ => {},
    }
}

proof fn lemma_element_member_replaced(
    resolved: Map<Seq<char>, Vec<(String, Expr)>>,
    a: ElementMember,
    b: ElementMember,
)
    requires
        spliced(resolved, a) is None,
        plain_table(resolved),
        element_member_styled(resolved, a, b),
    ensures
        unstyled_element_member(resolved, b),
    decreases a,
{
    match a {
        ElementMember::Property { key, value, .. } => {
            if let ElementMember::Property { value: value2, .. } = b {
                if key@ == "style"@ {
                    lemma_entries_same(resolved, value, value2);
                } else {
                    lemma_expr_replaced(resolved, value, value2);
                }
            }
        },
        ElementMember::Child(x) => {
            if let ElementMember::Child(y) = b {
                lemma_element_replaced(resolved, x, y);
            }
        },
        ElementMember::Stmt(x) => {
            if let ElementMember::Stmt(y) = b {
                lemma_stmt_replaced(resolved, x, y);
            }
        },
    }
}

proof fn lemma_exprs_replaced(
    resolved: Map<Seq<char>, Vec<(String, Expr)>>,
    a: Vec<Expr>,
    b: Vec<Expr>,
)
    requires
        plain_table(resolved),
        exprs_styled(resolved, a, b),
    ensures
        unstyled_exprs(resolved, b),
    decreases a,
{
    assert forall|i: int| 0 <= i < b@.len() implies unstyled_expr(resolved, #[trigger] b[i]) by {
        lemma_expr_replaced(resolved, a[i], b[i]);
    }
}

proof fn lemma_opt_boxed_expr_replaced(
    resolved: Map<Seq<char>, Vec<(String, Expr)>>,
    a: Option<Box<Expr>>,
    b: Option<Box<Expr>>,
)
    requires
        plain_table(resolved),
        opt_boxed_expr_styled(resolved, a, b),
    ensures
        unstyled_opt_boxed_expr(resolved, b),
    decreases a,
{
    match a {
        Some(x) => {
            lemma_expr_replaced(resolved, *x, *b->0);
        },
        None => {},
    }
}

proof fn lemma_block_replaced(resolved: Map<Seq<char>, Vec<(String, Expr)>>, a: Block, b: Block)
    requires
        plain_table(resolved),
        block_styled(resolved, a, b),
    ensures
        unstyled_block(resolved, b),
    decreases a,
{
    lemma_stmts_replaced(resolved, a.stmts, b.stmts);
    lemma_opt_boxed_expr_replaced(resolved, a.trailing, b.trailing);
}

proof fn lemma_params_replaced(
    resolved: Map<Seq<char>, Vec<(String, Expr)>>,
    a: Vec<Param>,
    b: Vec<Param>,
)
    requires
        plain_table(resolved),
        params_styled(resolved, a, b),
    ensures
        unstyled_params(resolved, b),
    decreases a,
{
    assert forall|i: int| 0 <= i < b@.len() implies unstyled_param(resolved, #[trigger] b[i]) by {
        lemma_param_replaced(resolved, a[i], b[i]);
    }
}

proof fn lemma_opt_block_replaced(
    resolved: Map<Seq<char>, Vec<(String, Expr)>>,
    a: Option<Block>,
    b: Option<Block>,
)
    requires
        plain_table(resolved),
        opt_block_styled(resolved, a, b),
    ensures
        unstyled_opt_block(resolved, b),
    decreases a,
{
    match a {
        Some(x) => {
            lemma_block_replaced(resolved, x, b->0);
        },
        None => {},
    }
}

proof fn lemma_opt_let_binding_replaced(
    resolved: Map<Seq<char>, Vec<(String, Expr)>>,
    a: Option<LetBinding>,
    b: Option<LetBinding>,
)
    requires
        plain_table(resolved),
        opt_let_binding_styled(resolved, a, b),
    ensures
        unstyled_opt_let_binding(resolved, b),
    decreases a,
{
    match a {
        Some(x) => {
            lemma_let_binding_replaced(resolved, x, b->0);
        },
        None => {},
    }
}

proof fn lemma_case_arms_replaced(
    resolved: Map<Seq<char>, Vec<(String, Expr)>>,
    a: Vec<CaseArm>,
    b: Vec<CaseArm>,
)
    requires
        plain_table(resolved),
        case_arms_styled(resolved, a, b),
    ensures
        unstyled_case_arms(resolved, b),
    decreases a,
{
    assert forall|i: int| 0 <= i < b@.len() implies unstyled_case_arm(resolved, #[trigger] b[i]) by {
        lemma_case_arm_replaced(resolved, a[i], b[i]);
    }
}

proof fn lemma_map_entries_replaced(
    resolved: Map<Seq<char>, Vec<(String, Expr)>>,
    a: Vec<MapEntry>,
    b: Vec<MapEntry>,
)
    requires
        plain_table(resolved),
        map_entries_styled(resolved, a, b),
    ensures
        unstyled_map_entries(resolved, b),
    decreases a,
{
    assert forall|i: int| 0 <= i < b@.len() implies unstyled_map_entry(resolved, #[trigger] b[i]) by {
        lemma_map_entry_replaced(resolved, a[i], b[i]);
    }
}

proof fn lemma_str_parts_replaced(
    resolved: Map<Seq<char>, Vec<(String, Expr)>>,
    a: Vec<StrPart>,
    b: Vec<StrPart>,
)
    requires
        plain_table(resolved),
        str_parts_styled(resolved, a, b),
    ensures
        unstyled_str_parts(resolved, b),
    decreases a,
{
    assert forall|i: int| 0 <= i < b@.len() implies unstyled_str_part(resolved, #[trigger] b[i]) by {
        lemma_str_part_replaced(resolved, a[i], b[i]);
    }
}

proof fn lemma_stmt_replaced(resolved: Map<Seq<char>, Vec<(String, Expr)>>, a: Stmt, b: Stmt)
    requires
        plain_table(resolved),
        stmt_styled(resolved, a, b),
    ensures
        unstyled_stmt(resolved, b),
    decreases a,
{
    match a {
        Stmt::Let { value, .. } => {
            if let Stmt::Let { value: value2, .. } = b {
                lemma_expr_replaced(resolved, value, value2);
            }
        },
        Stmt::Var { value, .. } => {
            if let Stmt::Var { value: value2, .. } = b {
                lemma_expr_replaced(resolved, value, value2);
            }
        },
        Stmt::Expr(x) => {
            if let Stmt::Expr(y) = b {
                lemma_expr_replaced(resolved, x, y);
            }
        },
        Stmt::Return { value, .. } => {
            if let Stmt::Return { value: value2, .. } = b {
                lemma_opt_expr_replaced(resolved, value, value2);
            }
        },
        Stmt::Emit { args, .. } => {
            if let Stmt::Emit { args: args2, .. } = b {
                lemma_exprs_replaced(resolved, args, args2);
            }
        },
        Stmt::Assign { target, value, .. } => {
            if let Stmt::Assign { target: target2, value: value2, .. } = b {
                lemma_expr_replaced(resolved, target, target2);
                lemma_expr_replaced(resolved, value, value2);
            }
        },
        Stmt::For { iter, body, .. } => {
            if let Stmt::For { iter: iter2, body: body2, .. } = b {
                lemma_expr_replaced(resolved, iter, iter2);
                lemma_block_replaced(resolved, body, body2);
            }
        },
        Stmt::While { cond, body, .. } => {
            if let Stmt::While { cond: cond2, body: body2, .. } = b {
                lemma_expr_replaced(resolved, cond, cond2);
                lemma_block_replaced(resolved, body, body2);
            }
        },
        Stmt::Batch { body, .. } => {
            if let Stmt::Batch { body: body2, .. } = b {
                lemma_block_replaced(resolved, body, body2);
            }
        },
        _ => {},
    }
}

proof fn lemma_stmts_replaced(
    resolved: Map<Seq<char>, Vec<(String, Expr)>>,
    a: Vec<Stmt>,
    b: Vec<Stmt>,
)
    requires
        plain_table(resolved),
        stmts_styled(resolved, a, b),
    ensures
        unstyled_stmts(resolved, b),
    decreases a,
{
    assert forall|i: int| 0 <= i < b@.len() implies unstyled_stmt(resolved, #[trigger] b[i]) by {
        lemma_stmt_replaced(resolved, a[i], b[i]);
    }
}

proof fn lemma_param_replaced(resolved: Map<Seq<char>, Vec<(String, Expr)>>, a: Param, b: Param)
    requires
        plain_table(resolved),
        param_styled(resolved, a, b),
    ensures
        unstyled_param(resolved, b),
    decreases a,
{
    lemma_opt_expr_replaced(resolved, a.default, b.default);
}

proof fn lemma_let_binding_replaced(
    resolved: Map<Seq<char>, Vec<(String, Expr)>>,
    a: LetBinding,
    b: LetBinding,
)
    requires
        plain_table(resolved),
        let_binding_styled(resolved, a, b),
    ensures
        unstyled_let_binding(resolved, b),
    decreases a,
{
    lemma_expr_replaced(resolved, *a.value, *b.value);
}

proof fn lemma_case_arm_replaced(
    resolved: Map<Seq<char>, Vec<(String, Expr)>>,
    a: CaseArm,
    b: CaseArm,
)
    requires
        plain_table(resolved),
        case_arm_styled(resolved, a, b),
    ensures
        unstyled_case_arm(resolved, b),
    decreases a,
{
    lemma_block_replaced(resolved, a.body, b.body);
}

proof fn lemma_map_entry_replaced(
    resolved: Map<Seq<char>, Vec<(String, Expr)>>,
    a: MapEntry,
    b: MapEntry,
)
    requires
        plain_table(resolved),
        map_entry_styled(resolved, a, b),
    ensures
        unstyled_map_entry(resolved, b),
    decreases a,
{
    lemma_expr_replaced(resolved, a.key, b.key);
    lemma_expr_replaced(resolved, a.value, b.value);
}

proof fn lemma_str_part_replaced(
    resolved: Map<Seq<char>, Vec<(String, Expr)>>,
    a: StrPart,
    b: StrPart,
)
    requires
        plain_table(resolved),
        str_part_styled(resolved, a, b),
    ensures
        unstyled_str_part(resolved, b),
    decreases a,
{
    match a {
        StrPart::Interp(x) => {
            if let StrPart::Interp(y) = b {
                lemma_expr_replaced(resolved, *x, *y);
            }
        },
        StrPart::InterpFmt { expr, .. } => {
            if let StrPart::InterpFmt { expr: expr2, .. } = b {
                lemma_expr_replaced(resolved, *expr, *expr2);
            }
        },
        _ => {},
    }
}

proof fn lemma_opt_expr_replaced(
    resolved: Map<Seq<char>, Vec<(String, Expr)>>,
    a: Option<Expr>,
    b: Option<Expr>,
)
    requires
        plain_table(resolved),
        opt_expr_styled(resolved, a, b),
    ensures
        unstyled_opt_expr(resolved, b),
    decreases a,
{
    match a {
        Some(x) => {
            lemma_expr_replaced(resolved, x, b->0);
        },
        None => {},
    }
}

// ---- the pass without styles --------------------------------------------------------------

proof fn lemma_element_kept(resolved: Map<Seq<char>, Vec<(String, Expr)>>, a: Element, b: Element)
    requires
        element_styled(resolved, a, b),
        unstyled_element(resolved, a),
    ensures
        same_element(a, b),
    decreases a,
{
    lemma_element_members_kept(resolved, a.members, b.members);
}

proof fn lemma_expr_kept(resolved: Map<Seq<char>, Vec<(String, Expr)>>, a: Expr, b: Expr)
    requires
        expr_styled(resolved, a, b),
        unstyled_expr(resolved, a),
    ensures
        same_expr(a, b),
    decreases a,
{
    lemma_expr_kind_kept(resolved, a.kind, b.kind);
}

proof fn lemma_element_members_kept(
    resolved: Map<Seq<char>, Vec<(String, Expr)>>,
    a: Vec<ElementMember>,
    b: Vec<ElementMember>,
)
    requires
        element_members_styled(resolved, a, b),
        unstyled_element_members(resolved, a),
    ensures
        same_element_members(a, b),
    decreases a,
{
    let n = a@.len() as int;
    assert forall|i: int| 0 <= i < n implies spliced(resolved, #[trigger] a@[i]) is None by {
        assert(unstyled_element_member(resolved, a[i]));
    }
    lemma_count_kept(resolved, a@, n);
    assert forall|i: int| 0 <= i < a@.len() implies same_element_member(#[trigger] a[i], b[i]) by {
        lemma_count_kept(resolved, a@, i);
        assert(spliced(resolved, a@[i]) is None);
        assert(unstyled_element_member(resolved, a[i]));
        assert(member_styled(resolved, a[i], b@, styled_count(resolved, a@, i)));
        lemma_element_member_kept(resolved, a[i], b[i]);
    }
}

proof fn lemma_expr_kind_kept(
    resolved: Map<Seq<char>, Vec<(String, Expr)>>,
    a: ExprKind,
    b: ExprKind,
)
    requires
        expr_kind_styled(resolved, a, b),
        unstyled_expr_kind(resolved, a),
    ensures
        same_expr_kind(a, b),
    decreases a,
{
    match a {
        ExprKind::Call { callee, args, block, .. } => {
            if let ExprKind::Call { callee: callee2, args: args2, block: block2, .. } = b {
                lemma_expr_kept(resolved, *callee, *callee2);
                lemma_exprs_kept(resolved, args, args2);
                lemma_opt_boxed_expr_kept(resolved, block, block2);
            }
        },
        ExprKind::MethodCall { receiver, args, block, .. } => {
            if let ExprKind::MethodCall { receiver: receiver2, args: args2, block: block2, .. } = b {
                lemma_expr_kept(resolved, *receiver, *receiver2);
                lemma_exprs_kept(resolved, args, args2);
                lemma_opt_boxed_expr_kept(resolved, block, block2);
            }
        },
        ExprKind::Member { receiver, .. } => {
            if let ExprKind::Member { receiver: receiver2, .. } = b {
                lemma_expr_kept(resolved, *receiver, *receiver2);
            }
        },
        ExprKind::SafeMember { receiver, .. } => {
            if let ExprKind::SafeMember { receiver: receiver2, .. } = b {
                lemma_expr_kept(resolved, *receiver, *receiver2);
            }
        },
        ExprKind::SafeMethodCall { receiver, args, block, .. } => {
            if let ExprKind::SafeMethodCall { receiver: receiver2, args: args2, block: block2, .. } = b {
                lemma_expr_kept(resolved, *receiver, *receiver2);
                lemma_exprs_kept(resolved, args, args2);
                lemma_opt_boxed_expr_kept(resolved, block, block2);
            }
        },
        ExprKind::Index { receiver, index, .. } => {
            if let ExprKind::Index { receiver: receiver2, index: index2, .. } = b {
                lemma_expr_kept(resolved, *receiver, *receiver2);
                lemma_expr_kept(resolved, *index, *index2);
            }
        },
        ExprKind::Block(x) => {
            if let ExprKind::Block(y) = b {
                lemma_block_kept(resolved, x, y);
            }
        },
        ExprKind::Lambda { params, body, .. } => {
            if let ExprKind::Lambda { params: params2, body: body2, .. } = b {
                lemma_params_kept(resolved, params, params2);
                lemma_block_kept(resolved, body, body2);
            }
        },
        ExprKind::Unary { expr, .. } => {
            if let ExprKind::Unary { expr: expr2, .. } = b {
                lemma_expr_kept(resolved, *expr, *expr2);
            }
        },
        ExprKind::Binary { lhs, rhs, .. } => {
            if let ExprKind::Binary { lhs: lhs2, rhs: rhs2, .. } = b {
                lemma_expr_kept(resolved, *lhs, *lhs2);
                lemma_expr_kept(resolved, *rhs, *rhs2);
            }
        },
        ExprKind::Try(x) => {
            if let ExprKind::Try(y) = b {
                lemma_expr_kept(resolved, *x, *y);
            }
        },
        ExprKind::Await(x) => {
            if let ExprKind::Await(y) = b {
                lemma_expr_kept(resolved, *x, *y);
            }
        },
        ExprKind::If { cond, then_b, else_b, let_binding, .. } => {
            if let ExprKind::If { cond: cond2, then_b: then_b2, else_b: else_b2, let_binding: let_binding2, .. } = b {
                lemma_expr_kept(resolved, *cond, *cond2);
                lemma_block_kept(resolved, then_b, then_b2);
                lemma_opt_block_kept(resolved, else_b, else_b2);
                lemma_opt_let_binding_kept(resolved, let_binding, let_binding2);
            }
        },
        ExprKind::Case { scrutinee, arms, .. } => {
            if let ExprKind::Case { scrutinee: scrutinee2, arms: arms2, .. } = b {
                lemma_expr_kept(resolved, *scrutinee, *scrutinee2);
                lemma_case_arms_kept(resolved, arms, arms2);
            }
        },
        ExprKind::Kwarg { value, .. } => {
            if let ExprKind::Kwarg { value: value2, .. } = b {
                lemma_expr_kept(resolved, *value, *value2);
            }
        },
        ExprKind::Element(x) => {
            if let ExprKind::Element(y) = b {
                lemma_element_kept(resolved, x, y);
            }
        },
        ExprKind::Array(x) => {
            if let ExprKind::Array(y) = b {
                lemma_exprs_kept(resolved, x, y);
            }
        },
        ExprKind::MapLit(x) => {
            if let ExprKind::MapLit(y) = b {
                lemma_map_entries_kept(resolved, x, y);
            }
        },
        ExprKind::Range { start, end, .. } => {
            if let ExprKind::Range { start: start2, end: end2, .. } = b {
                lemma_expr_kept(resolved, *start, *start2);
                lemma_expr_kept(resolved, *end, *end2);
            }
        },
        ExprKind::Str(x) => {
            if let ExprKind::Str(y) = b {
                lemma_str_parts_kept(resolved, x, y);
            }
        },
        _ => {},
    }
}

proof fn lemma_element_member_kept(
    resolved: Map<Seq<char>, Vec<(String, Expr)>>,
    a: ElementMember,
    b: ElementMember,
)
    requires
        spliced(resolved, a) is None,
        element_member_styled(resolved, a, b),
        unstyled_element_member(resolved, a),
    ensures
        same_element_member(a, b),
    decreases a,
{
    match a {
        ElementMember::Property { key, value, .. } => {
            if let ElementMember::Property { value: value2, .. } = b {
                if key@ != "style"@ {
                    lemma_expr_kept(resolved, value, value2);
                }
            }
        },
        ElementMember::Child(x) => {
            if let ElementMember::Child(y) = b {
                lemma_element_kept(resolved, x, y);
            }
        },
        ElementMember::Stmt(x) => {
            if let ElementMember::Stmt(y) = b {
                lemma_stmt_kept(resolved, x, y);
            }
        },
    }
}

proof fn lemma_exprs_kept(resolved: Map<Seq<char>, Vec<(String, Expr)>>, a: Vec<Expr>, b: Vec<Expr>)
    requires
        exprs_styled(resolved, a, b),
        unstyled_exprs(resolved, a),
    ensures
        same_exprs(a, b),
    decreases a,
{
    assert forall|i: int| 0 <= i < a@.len() implies same_expr(#[trigger] a[i], b[i]) by {
        lemma_expr_kept(resolved, a[i], b[i]);
    }
}

proof fn lemma_opt_boxed_expr_kept(
    resolved: Map<Seq<char>, Vec<(String, Expr)>>,
    a: Option<Box<Expr>>,
    b: Option<Box<Expr>>,
)
    requires
        opt_boxed_expr_styled(resolved, a, b),
        unstyled_opt_boxed_expr(resolved, a),
    ensures
        same_opt_boxed_expr(a, b),
    decreases a,
{
    match a {
        Some(x) => {
            lemma_expr_kept(resolved, *x, *b->0);
        },
        None => {},
    }
}

proof fn lemma_block_kept(resolved: Map<Seq<char>, Vec<(String, Expr)>>, a: Block, b: Block)
    requires
        block_styled(resolved, a, b),
        unstyled_block(resolved, a),
    ensures
        same_block(a, b),
    decreases a,
{
    lemma_stmts_kept(resolved, a.stmts, b.stmts);
    lemma_opt_boxed_expr_kept(resolved, a.trailing, b.trailing);
}

proof fn lemma_params_kept(
    resolved: Map<Seq<char>, Vec<(String, Expr)>>,
    a: Vec<Param>,
    b: Vec<Param>,
)
    requires
        params_styled(resolved, a, b),
        unstyled_params(resolved, a),
    ensures
        same_params(a, b),
    decreases a,
{
    assert forall|i: int| 0 <= i < a@.len() implies same_param(#[trigger] a[i], b[i]) by {
        lemma_param_kept(resolved, a[i], b[i]);
    }
}

proof fn lemma_opt_block_kept(
    resolved: Map<Seq<char>, Vec<(String, Expr)>>,
    a: Option<Block>,
    b: Option<Block>,
)
    requires
        opt_block_styled(resolved, a, b),
        unstyled_opt_block(resolved, a),
    ensures
        same_opt_block(a, b),
    decreases a,
{
    match a {
        Some(x) => {
            lemma_block_kept(resolved, x, b->0);
        },
        None => {},
    }
}

proof fn lemma_opt_let_binding_kept(
    resolved: Map<Seq<char>, Vec<(String, Expr)>>,
    a: Option<LetBinding>,
    b: Option<LetBinding>,
)
    requires
        opt_let_binding_styled(resolved, a, b),
        unstyled_opt_let_binding(resolved, a),
    ensures
        same_opt_let_binding(a, b),
    decreases a,
{
    match a {
        Some(x) => {
            lemma_let_binding_kept(resolved, x, b->0);
        },
        None => {},
    }
}

proof fn lemma_case_arms_kept(
    resolved: Map<Seq<char>, Vec<(String, Expr)>>,
    a: Vec<CaseArm>,
    b: Vec<CaseArm>,
)
    requires
        case_arms_styled(resolved, a, b),
        unstyled_case_arms(resolved, a),
    ensures
        same_case_arms(a, b),
    decreases a,
{
    assert forall|i: int| 0 <= i < a@.len() implies same_case_arm(#[trigger] a[i], b[i]) by {
        lemma_case_arm_kept(resolved, a[i], b[i]);
    }
}

proof fn lemma_map_entries_kept(
    resolved: Map<Seq<char>, Vec<(String, Expr)>>,
    a: Vec<MapEntry>,
    b: Vec<MapEntry>,
)
    requires
        map_entries_styled(resolved, a, b),
        unstyled_map_entries(resolved, a),
    ensures
        same_map_entries(a, b),
    decreases a,
{
    assert forall|i: int| 0 <= i < a@.len() implies same_map_entry(#[trigger] a[i], b[i]) by {
        lemma_map_entry_kept(resolved, a[i], b[i]);
    }
}

proof fn lemma_str_parts_kept(
    resolved: Map<Seq<char>, Vec<(String, Expr)>>,
    a: Vec<StrPart>,
    b: Vec<StrPart>,
)
    requires
        str_parts_styled(resolved, a, b),
        unstyled_str_parts(resolved, a),
    ensures
        same_str_parts(a, b),
    decreases a,
{
    assert forall|i: int| 0 <= i < a@.len() implies same_str_part(#[trigger] a[i], b[i]) by {
        lemma_str_part_kept(resolved, a[i], b[i]);
    }
}

proof fn lemma_stmt_kept(resolved: Map<Seq<char>, Vec<(String, Expr)>>, a: Stmt, b: Stmt)
    requires
        stmt_styled(resolved, a, b),
        unstyled_stmt(resolved, a),
    ensures
        same_stmt(a, b),
    decreases a,
{
    match a {
        Stmt::Let { value, .. } => {
            if let Stmt::Let { value: value2, .. } = b {
                lemma_expr_kept(resolved, value, value2);
            }
        },
        Stmt::Var { value, .. } => {
            if let Stmt::Var { value: value2, .. } = b {
                lemma_expr_kept(resolved, value, value2);
            }
        },
        Stmt::Expr(x) => {
            if let Stmt::Expr(y) = b {
                lemma_expr_kept(resolved, x, y);
            }
        },
        Stmt::Return { value, .. } => {
            if let Stmt::Return { value: value2, .. } = b {
                lemma_opt_expr_kept(resolved, value, value2);
            }
        },
        Stmt::Emit { args, .. } => {
            if let Stmt::Emit { args: args2, .. } = b {
                lemma_exprs_kept(resolved, args, args2);
            }
        },
        Stmt::Assign { target, value, .. } => {
            if let Stmt::Assign { target: target2, value: value2, .. } = b {
                lemma_expr_kept(resolved, target, target2);
                lemma_expr_kept(resolved, value, value2);
            }
        },
        Stmt::For { iter, body, .. } => {
            if let Stmt::For { iter: iter2, body: body2, .. } = b {
                lemma_expr_kept(resolved, iter, iter2);
                lemma_block_kept(resolved, body, body2);
            }
        },
        Stmt::While { cond, body, .. } => {
            if let Stmt::While { cond: cond2, body: body2, .. } = b {
                lemma_expr_kept(resolved, cond, cond2);
                lemma_block_kept(resolved, body, body2);
            }
        },
        Stmt::Batch { body, .. } => {
            if let Stmt::Batch { body: body2, .. } = b {
                lemma_block_kept(resolved, body, body2);
            }
        },
        _ => {},
    }
}

proof fn lemma_stmts_kept(resolved: Map<Seq<char>, Vec<(String, Expr)>>, a: Vec<Stmt>, b: Vec<Stmt>)
    requires
        stmts_styled(resolved, a, b),
        unstyled_stmts(resolved, a),
    ensures
        same_stmts(a, b),
    decreases a,
{
    assert forall|i: int| 0 <= i < a@.len() implies same_stmt(#[trigger] a[i], b[i]) by {
        lemma_stmt_kept(resolved, a[i], b[i]);
    }
}

proof fn lemma_param_kept(resolved: Map<Seq<char>, Vec<(String, Expr)>>, a: Param, b: Param)
    requires
        param_styled(resolved, a, b),
        unstyled_param(resolved, a),
    ensures
        same_param(a, b),
    decreases a,
{
    lemma_opt_expr_kept(resolved, a.default, b.default);
}

proof fn lemma_let_binding_kept(
    resolved: Map<Seq<char>, Vec<(String, Expr)>>,
    a: LetBinding,
    b: LetBinding,
)
    requires
        let_binding_styled(resolved, a, b),
        unstyled_let_binding(resolved, a),
    ensures
        same_let_binding(a, b),
    decreases a,
{
    lemma_expr_kept(resolved, *a.value, *b.value);
}

proof fn lemma_case_arm_kept(resolved: Map<Seq<char>, Vec<(String, Expr)>>, a: CaseArm, b: CaseArm)
    requires
        case_arm_styled(resolved, a, b),
        unstyled_case_arm(resolved, a),
    ensures
        same_case_arm(a, b),
    decreases a,
{
    lemma_block_kept(resolved, a.body, b.body);
}

proof fn lemma_map_entry_kept(
    resolved: Map<Seq<char>, Vec<(String, Expr)>>,
    a: MapEntry,
    b: MapEntry,
)
    requires
        map_entry_styled(resolved, a, b),
        unstyled_map_entry(resolved, a),
    ensures
        same_map_entry(a, b),
    decreases a,
{
    lemma_expr_kept(resolved, a.key, b.key);
    lemma_expr_kept(resolved, a.value, b.value);
}

proof fn lemma_str_part_kept(resolved: Map<Seq<char>, Vec<(String, Expr)>>, a: StrPart, b: StrPart)
    requires
        str_part_styled(resolved, a, b),
        unstyled_str_part(resolved, a),
    ensures
        same_str_part(a, b),
    decreases a,
{
    match a {
        StrPart::Interp(x) => {
            if let StrPart::Interp(y) = b {
                lemma_expr_kept(resolved, *x, *y);
            }
        },
        StrPart::InterpFmt { expr, .. } => {
            if let StrPart::InterpFmt { expr: expr2, .. } = b {
                lemma_expr_kept(resolved, *expr, *expr2);
            }
        },
        _ => {},
    }
}

proof fn lemma_opt_expr_kept(
    resolved: Map<Seq<char>, Vec<(String, Expr)>>,
    a: Option<Expr>,
    b: Option<Expr>,
)
    requires
        opt_expr_styled(resolved, a, b),
        unstyled_opt_expr(resolved, a),
    ensures
        same_opt_expr(a, b),
    decreases a,
{
    match a {
        Some(x) => {
            lemma_expr_kept(resolved, x, b->0);
        },
        None => {},
    }
}

// ---- laws -----------------------------------------------------------------------------

/// After the pass, no `style:` that the table resolves remains in an element:
/// only ordinary properties do. The entries of the styles themselves must hold
/// none, for they are taken over as they are.
pub proof fn law_no_style_remains(
    resolved: Map<Seq<char>, Vec<(String, Expr)>>,
    a: Element,
    b: Element,
)
    requires
        element_styled(resolved, a, b),
        plain_table(resolved),
    ensures
        unstyled_element(resolved, b),
{
    lemma_element_replaced(resolved, a, b);
}

/// The same of every view and widget of a module.
pub proof fn law_no_style_remains_in_modules(env: StyleEnv, a: Module, b: Module)
    requires
        module_styled(env, a, b),
        plain_table(env.resolved@),
    ensures
        forall|i: int|
            0 <= i < b.items@.len() ==> match #[trigger] b.items@[i] {
                Item::View(v) => unstyled_element(env.resolved@, v.root),
                Item::Widget(w) => unstyled_element(env.resolved@, w.root),
                _ => true,
            },
{
    assert forall|i: int| 0 <= i < b.items@.len() implies match #[trigger] b.items@[i] {
        Item::View(v) => unstyled_element(env.resolved@, v.root),
        Item::Widget(w) => unstyled_element(env.resolved@, w.root),
        _ => true,
    } by {
        assert(item_styled(env.resolved@, a.items@[i], b.items@[i]));
        match (a.items@[i], b.items@[i]) {
            (Item::View(v), Item::View(w)) => {
                lemma_element_replaced(env.resolved@, v.root, w.root);
            },
            (Item::Widget(v), Item::Widget(w)) => {
                lemma_element_replaced(env.resolved@, v.root, w.root);
            },
            _ => {},
        }
    }
}

/// An element without a style that the table resolves stays as it is.
pub proof fn law_elements_without_styles_stay(
    resolved: Map<Seq<char>, Vec<(String, Expr)>>,
    a: Element,
    b: Element,
)
    requires
        element_styled(resolved, a, b),
        unstyled_element(resolved, a),
    ensures
        same_element(a, b),
{
    lemma_element_kept(resolved, a, b);
}

/// A second pass changes nothing.
pub proof fn law_styling_twice_changes_nothing(
    resolved: Map<Seq<char>, Vec<(String, Expr)>>,
    a: Element,
    b: Element,
    c: Element,
)
    requires
        element_styled(resolved, a, b),
        element_styled(resolved, b, c),
        plain_table(resolved),
    ensures
        same_element(b, c),
{
    lemma_element_replaced(resolved, a, b);
    lemma_element_kept(resolved, b, c);
}

} // verus!
