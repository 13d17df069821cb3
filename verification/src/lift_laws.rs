//! What lifting state keeps: all that an expression or element holds, but for how
//! the state is read.

use crate::ast::{
    Block, CaseArm, Element, ElementMember, Expr, ExprKind, LetBinding, MapEntry, Param, Stmt,
    StrPart, WidgetDecl,
};
use crate::copy_laws::{
    Word, lemma_ident, lemma_idents, lemma_opt_type_expr, lemma_pattern, lemma_type_expr,
    lemma_type_exprs, words_ident, words_idents, words_opt_type_expr, words_pattern,
    words_type_expr, words_type_exprs,
};
use crate::desugar_state::{
    block_lifted, case_arm_lifted, case_arms_lifted, element_lifted, element_member_lifted,
    element_members_lifted, expr_kind_lifted, expr_lifted, exprs_lifted, let_binding_lifted,
    map_entries_lifted, map_entry_lifted, object_fields, object_lifted, opt_block_lifted,
    opt_boxed_expr_lifted, opt_expr_lifted, opt_let_binding_lifted, param_lifted, params_lifted,
    reads_state, state_names, stmt_lifted, stmts_lifted, str_part_lifted, str_parts_lifted,
    widget_lifted,
};
use vstd::prelude::*;

verus! {

// ---- what is read ------------------------------------------------------------------

/// The name that an expression reads: it is that name, or the member of that
/// name of the object that keeps the state.
pub open spec fn read_name(e: Expr) -> Option<Seq<char>> {
    match e.kind {
        ExprKind::Ident(n) => Some(n@),
        ExprKind::Member { receiver, name } => match receiver.kind {
            ExprKind::Ident(of) => if of@ == "__cute_state"@ {
                Some(name.name@)
            } else {
                None
            },
            _ => None,
        },
        _ => None,
    }
}

pub open spec fn reads_expr(a: Expr) -> Seq<Word>
    decreases a, 0nat,
{
    (match read_name(a) {
        Some(name) => seq![Word::Text(name)],
        None => reads_expr_kind(a.kind),
    }) + seq![Word::Place(a.span)]
}

pub open spec fn reads_element(a: Element) -> Seq<Word>
    decreases a, 0nat,
{
    (seq![Word::Count(a.path@.len())] + words_idents(a.path, a.path@.len()))
        + words_ident(a.name)
        + (seq![Word::Count(a.members@.len())] + reads_element_members(a.members, a.members@.len()))
        + seq![Word::Place(a.span)]
}

pub open spec fn reads_expr_kind(a: ExprKind) -> Seq<Word>
    decreases a, 0nat,
{
    match a {
        ExprKind::Ident(x) => seq![Word::Form(0)] + seq![Word::Text(x@)],
        ExprKind::Path(x) => seq![Word::Form(1)] + (seq![Word::Count(x@.len())] + words_idents(x, x@.len())),
        ExprKind::Call { callee, args, block, type_args } => seq![Word::Form(2)]
            + reads_expr(*callee) + (seq![Word::Count(args@.len())]
            + reads_exprs(args, args@.len())) + reads_opt_boxed_expr(block)
            + (seq![Word::Count(type_args@.len())] + words_type_exprs(type_args, type_args@.len())),
        ExprKind::MethodCall { receiver, method, args, block, type_args } => seq![Word::Form(3)]
            + reads_expr(*receiver) + words_ident(method) + (seq![Word::Count(args@.len())]
            + reads_exprs(args, args@.len())) + reads_opt_boxed_expr(block)
            + (seq![Word::Count(type_args@.len())] + words_type_exprs(type_args, type_args@.len())),
        ExprKind::Member { receiver, name } => seq![Word::Form(4)] + reads_expr(*receiver)
            + words_ident(name),
        ExprKind::SafeMember { receiver, name } => seq![Word::Form(5)] + reads_expr(*receiver)
            + words_ident(name),
        ExprKind::SafeMethodCall { receiver, method, args, block, type_args } => seq![Word::Form(6)]
            + reads_expr(*receiver) + words_ident(method) + (seq![Word::Count(args@.len())]
            + reads_exprs(args, args@.len())) + reads_opt_boxed_expr(block)
            + (seq![Word::Count(type_args@.len())] + words_type_exprs(type_args, type_args@.len())),
        ExprKind::Index { receiver, index } => seq![Word::Form(7)] + reads_expr(*receiver)
            + reads_expr(*index),
        ExprKind::Block(x) => seq![Word::Form(8)] + reads_block(x),
        ExprKind::Lambda { params, body } => seq![Word::Form(9)] + (seq![Word::Count(params@.len())]
            + reads_params(params, params@.len())) + reads_block(body),
        ExprKind::Unary { op, expr } => seq![Word::Form(10)] + seq![Word::Unary(op)] + reads_expr(*expr),
        ExprKind::Binary { op, lhs, rhs } => seq![Word::Form(11)] + seq![Word::Binary(op)]
            + reads_expr(*lhs) + reads_expr(*rhs),
        ExprKind::Try(x) => seq![Word::Form(12)] + reads_expr(*x),
        ExprKind::Await(x) => seq![Word::Form(13)] + reads_expr(*x),
        ExprKind::If { cond, then_b, else_b, let_binding } => seq![Word::Form(14)]
            + reads_expr(*cond) + reads_block(then_b) + reads_opt_block(else_b)
            + reads_opt_let_binding(let_binding),
        ExprKind::Case { scrutinee, arms } => seq![Word::Form(15)] + reads_expr(*scrutinee)
            + (seq![Word::Count(arms@.len())] + reads_case_arms(arms, arms@.len())),
        ExprKind::Kwarg { key, value } => seq![Word::Form(16)] + words_ident(key) + reads_expr(*value),
        ExprKind::Element(x) => seq![Word::Form(17)] + reads_element(x),
        ExprKind::Array(x) => seq![Word::Form(18)] + (seq![Word::Count(x@.len())] + reads_exprs(x, x@.len())),
        ExprKind::MapLit(x) => seq![Word::Form(19)] + (seq![Word::Count(x@.len())]
            + reads_map_entries(x, x@.len())),
        ExprKind::Range { start, end, inclusive } => seq![Word::Form(20)] + reads_expr(*start)
            + reads_expr(*end) + seq![Word::Flag(inclusive)],
        ExprKind::Str(x) => seq![Word::Form(21)] + (seq![Word::Count(x@.len())]
            + reads_str_parts(x, x@.len())),
        ExprKind::Int(x) => seq![Word::Form(22)] + seq![Word::Number(x as int)],
        ExprKind::Float(x) => seq![Word::Form(23)] + seq![Word::Text(x@)],
        ExprKind::Bool(x) => seq![Word::Form(24)] + seq![Word::Flag(x)],
        ExprKind::Nil => seq![Word::Form(25)],
        ExprKind::Sym(x) => seq![Word::Form(26)] + seq![Word::Text(x@)],
        ExprKind::AtIdent(x) => seq![Word::Form(27)] + seq![Word::Text(x@)],
        ExprKind::SelfRef => seq![Word::Form(28)],
    }
}

pub open spec fn reads_element_members(a: Vec<ElementMember>, n: nat) -> Seq<Word>
    decreases a, n,
{
    if n == 0 || n > a@.len() {
        Seq::empty()
    } else {
        reads_element_members(a, (n - 1) as nat) + reads_element_member(a[n - 1])
    }
}

pub open spec fn reads_exprs(a: Vec<Expr>, n: nat) -> Seq<Word>
    decreases a, n,
{
    if n == 0 || n > a@.len() {
        Seq::empty()
    } else {
        reads_exprs(a, (n - 1) as nat) + reads_expr(a[n - 1])
    }
}

pub open spec fn reads_opt_boxed_expr(a: Option<Box<Expr>>) -> Seq<Word>
    decreases a, 0nat,
{
    match a {
        Some(x) => seq![Word::Flag(true)] + reads_expr(*x),
        None => seq![Word::Flag(false)],
    }
}

pub open spec fn reads_block(a: Block) -> Seq<Word>
    decreases a, 0nat,
{
    (seq![Word::Count(a.stmts@.len())] + reads_stmts(a.stmts, a.stmts@.len()))
        + reads_opt_boxed_expr(a.trailing)
        + seq![Word::Place(a.span)]
}

pub open spec fn reads_params(a: Vec<Param>, n: nat) -> Seq<Word>
    decreases a, n,
{
    if n == 0 || n > a@.len() {
        Seq::empty()
    } else {
        reads_params(a, (n - 1) as nat) + reads_param(a[n - 1])
    }
}

pub open spec fn reads_opt_block(a: Option<Block>) -> Seq<Word>
    decreases a, 0nat,
{
    match a {
        Some(x) => seq![Word::Flag(true)] + reads_block(x),
        None => seq![Word::Flag(false)],
    }
}

pub open spec fn reads_opt_let_binding(a: Option<LetBinding>) -> Seq<Word>
    decreases a, 0nat,
{
    match a {
        Some(x) => seq![Word::Flag(true)] + reads_let_binding(x),
        None => seq![Word::Flag(false)],
    }
}

pub open spec fn reads_case_arms(a: Vec<CaseArm>, n: nat) -> Seq<Word>
    decreases a, n,
{
    if n == 0 || n > a@.len() {
        Seq::empty()
    } else {
        reads_case_arms(a, (n - 1) as nat) + reads_case_arm(a[n - 1])
    }
}

pub open spec fn reads_map_entries(a: Vec<MapEntry>, n: nat) -> Seq<Word>
    decreases a, n,
{
    if n == 0 || n > a@.len() {
        Seq::empty()
    } else {
        reads_map_entries(a, (n - 1) as nat) + reads_map_entry(a[n - 1])
    }
}

pub open spec fn reads_str_parts(a: Vec<StrPart>, n: nat) -> Seq<Word>
    decreases a, n,
{
    if n == 0 || n > a@.len() {
        Seq::empty()
    } else {
        reads_str_parts(a, (n - 1) as nat) + reads_str_part(a[n - 1])
    }
}

pub open spec fn reads_element_member(a: ElementMember) -> Seq<Word>
    decreases a, 0nat,
{
    match a {
        ElementMember::Property { key, value, span } => seq![Word::Form(0)] + seq![Word::Text(key@)]
            + reads_expr(value) + seq![Word::Place(span)],
        ElementMember::Child(x) => seq![Word::Form(1)] + reads_element(x),
        ElementMember::Stmt(x) => seq![Word::Form(2)] + reads_stmt(x),
    }
}

pub open spec fn reads_stmts(a: Vec<Stmt>, n: nat) -> Seq<Word>
    decreases a, n,
{
    if n == 0 || n > a@.len() {
        Seq::empty()
    } else {
        reads_stmts(a, (n - 1) as nat) + reads_stmt(a[n - 1])
    }
}

pub open spec fn reads_param(a: Param) -> Seq<Word>
    decreases a, 0nat,
{
    words_ident(a.name)
        + words_type_expr(a.ty)
        + reads_opt_expr(a.default)
        + seq![Word::Flag(a.is_escaping)]
        + seq![Word::Flag(a.is_consuming)]
        + seq![Word::Place(a.span)]
}

pub open spec fn reads_let_binding(a: LetBinding) -> Seq<Word>
    decreases a, 0nat,
{
    words_pattern(a.pattern)
        + reads_expr(*a.value)
}

pub open spec fn reads_case_arm(a: CaseArm) -> Seq<Word>
    decreases a, 0nat,
{
    words_pattern(a.pattern)
        + reads_block(a.body)
        + seq![Word::Place(a.span)]
}

pub open spec fn reads_map_entry(a: MapEntry) -> Seq<Word>
    decreases a, 0nat,
{
    reads_expr(a.key)
        + reads_expr(a.value)
}

pub open spec fn reads_str_part(a: StrPart) -> Seq<Word>
    decreases a, 0nat,
{
    match a {
        StrPart::Text(x) => seq![Word::Form(0)] + seq![Word::Text(x@)],
        StrPart::Interp(x) => seq![Word::Form(1)] + reads_expr(*x),
        StrPart::InterpFmt { expr, format_spec } => seq![Word::Form(2)] + reads_expr(*expr)
            + seq![Word::Text(format_spec@)],
    }
}

pub open spec fn reads_stmt(a: Stmt) -> Seq<Word>
    decreases a, 0nat,
{
    match a {
        Stmt::Let { name, ty, value, span, block_id } => seq![Word::Form(0)] + words_ident(name)
            + words_opt_type_expr(ty) + reads_expr(value) + seq![Word::Place(span)]
            + seq![Word::Owner(block_id)],
        Stmt::Var { name, ty, value, span, block_id } => seq![Word::Form(1)] + words_ident(name)
            + words_opt_type_expr(ty) + reads_expr(value) + seq![Word::Place(span)]
            + seq![Word::Owner(block_id)],
        Stmt::Expr(x) => seq![Word::Form(2)] + reads_expr(x),
        Stmt::Return { value, span } => seq![Word::Form(3)] + reads_opt_expr(value) + seq![Word::Place(span)],
        Stmt::Emit { signal, args, span } => seq![Word::Form(4)] + words_ident(signal)
            + (seq![Word::Count(args@.len())] + reads_exprs(args, args@.len()))
            + seq![Word::Place(span)],
        Stmt::Assign { target, op, value, span } => seq![Word::Form(5)] + reads_expr(target)
            + seq![Word::Assign(op)] + reads_expr(value) + seq![Word::Place(span)],
        Stmt::For { binding, iter, body, span } => seq![Word::Form(6)] + words_ident(binding)
            + reads_expr(iter) + reads_block(body) + seq![Word::Place(span)],
        Stmt::While { cond, body, span } => seq![Word::Form(7)] + reads_expr(cond)
            + reads_block(body) + seq![Word::Place(span)],
        Stmt::Break { span } => seq![Word::Form(8)] + seq![Word::Place(span)],
        Stmt::Continue { span } => seq![Word::Form(9)] + seq![Word::Place(span)],
        Stmt::Batch { body, span } => seq![Word::Form(10)] + reads_block(body) + seq![Word::Place(span)],
    }
}

pub open spec fn reads_opt_expr(a: Option<Expr>) -> Seq<Word>
    decreases a, 0nat,
{
    match a {
        Some(x) => seq![Word::Flag(true)] + reads_expr(x),
        None => seq![Word::Flag(false)],
    }
}

// ---- lifting -----------------------------------------------------------------------

proof fn lemma_reads_expr(props: Seq<Seq<char>>, a: Expr, b: Expr)
    requires
        expr_lifted(props, a, b),
        !props.contains("__cute_state"@),
    ensures
        reads_expr(a) == reads_expr(b),
    decreases a, 0nat,
{
    if !reads_state(props, a) {
        lemma_reads_expr_kind(props, a.kind, b.kind);
        if let ExprKind::Member { receiver, name } = a.kind {
            if let ExprKind::Member { receiver: receiver2, name: name2 } = b.kind {
                assert(expr_lifted(props, *receiver, *receiver2));
            }
        }
        assert(read_name(a) == read_name(b));
    }
}

proof fn lemma_reads_element(props: Seq<Seq<char>>, a: Element, b: Element)
    requires
        element_lifted(props, a, b),
        !props.contains("__cute_state"@),
    ensures
        reads_element(a) == reads_element(b),
    decreases a, 0nat,
{
    lemma_idents(a.path, b.path, a.path@.len());
    lemma_ident(a.name, b.name);
    lemma_reads_element_members(props, a.members, b.members, a.members@.len());
}

proof fn lemma_reads_expr_kind(props: Seq<Seq<char>>, a: ExprKind, b: ExprKind)
    requires
        expr_kind_lifted(props, a, b),
        !props.contains("__cute_state"@),
    ensures
        reads_expr_kind(a) == reads_expr_kind(b),
    decreases a, 0nat,
{
    match a {
        ExprKind::Path(x) => {
            if let ExprKind::Path(y) = b {
                lemma_idents(x, y, x@.len());
            }
        },
        ExprKind::Call { callee, args, block, type_args } => {
            if let ExprKind::Call { callee: callee2, args: args2, block: block2, type_args: type_args2 } = b {
                lemma_reads_expr(props, *callee, *callee2);
                lemma_reads_exprs(props, args, args2, args@.len());
                lemma_reads_opt_boxed_expr(props, block, block2);
                lemma_type_exprs(type_args, type_args2, type_args@.len());
            }
        },
        ExprKind::MethodCall { receiver, method, args, block, type_args } => {
            if let ExprKind::MethodCall { receiver: receiver2, method: method2, args: args2, block: block2, type_args: type_args2 } = b {
                lemma_reads_expr(props, *receiver, *receiver2);
                lemma_ident(method, method2);
                lemma_reads_exprs(props, args, args2, args@.len());
                lemma_reads_opt_boxed_expr(props, block, block2);
                lemma_type_exprs(type_args, type_args2, type_args@.len());
            }
        },
        ExprKind::Member { receiver, name } => {
            if let ExprKind::Member { receiver: receiver2, name: name2 } = b {
                lemma_reads_expr(props, *receiver, *receiver2);
                lemma_ident(name, name2);
            }
        },
        ExprKind::SafeMember { receiver, name } => {
            if let ExprKind::SafeMember { receiver: receiver2, name: name2 } = b {
                lemma_reads_expr(props, *receiver, *receiver2);
                lemma_ident(name, name2);
            }
        },
        ExprKind::SafeMethodCall { receiver, method, args, block, type_args } => {
            if let ExprKind::SafeMethodCall { receiver: receiver2, method: method2, args: args2, block: block2, type_args: type_args2 } = b {
                lemma_reads_expr(props, *receiver, *receiver2);
                lemma_ident(method, method2);
                lemma_reads_exprs(props, args, args2, args@.len());
                lemma_reads_opt_boxed_expr(props, block, block2);
                lemma_type_exprs(type_args, type_args2, type_args@.len());
            }
        },
        ExprKind::Index { receiver, index } => {
            if let ExprKind::Index { receiver: receiver2, index: index2 } = b {
                lemma_reads_expr(props, *receiver, *receiver2);
                lemma_reads_expr(props, *index, *index2);
            }
        },
        ExprKind::Block(x) => {
            if let ExprKind::Block(y) = b {
                lemma_reads_block(props, x, y);
            }
        },
        ExprKind::Lambda { params, body } => {
            if let ExprKind::Lambda { params: params2, body: body2 } = b {
                lemma_reads_params(props, params, params2, params@.len());
                lemma_reads_block(props, body, body2);
            }
        },
        ExprKind::Unary { expr, .. } => {
            if let ExprKind::Unary { expr: expr2, .. } = b {
                lemma_reads_expr(props, *expr, *expr2);
            }
        },
        ExprKind::Binary { lhs, rhs, .. } => {
            if let ExprKind::Binary { lhs: lhs2, rhs: rhs2, .. } = b {
                lemma_reads_expr(props, *lhs, *lhs2);
                lemma_reads_expr(props, *rhs, *rhs2);
            }
        },
        ExprKind::Try(x) => {
            if let ExprKind::Try(y) = b {
                lemma_reads_expr(props, *x, *y);
            }
        },
        ExprKind::Await(x) => {
            if let ExprKind::Await(y) = b {
                lemma_reads_expr(props, *x, *y);
            }
        },
        ExprKind::If { cond, then_b, else_b, let_binding } => {
            if let ExprKind::If { cond: cond2, then_b: then_b2, else_b: else_b2, let_binding: let_binding2 } = b {
                lemma_reads_expr(props, *cond, *cond2);
                lemma_reads_block(props, then_b, then_b2);
                lemma_reads_opt_block(props, else_b, else_b2);
                lemma_reads_opt_let_binding(props, let_binding, let_binding2);
            }
        },
        ExprKind::Case { scrutinee, arms } => {
            if let ExprKind::Case { scrutinee: scrutinee2, arms: arms2 } = b {
                lemma_reads_expr(props, *scrutinee, *scrutinee2);
                lemma_reads_case_arms(props, arms, arms2, arms@.len());
            }
        },
        ExprKind::Kwarg { key, value } => {
            if let ExprKind::Kwarg { key: key2, value: value2 } = b {
                lemma_ident(key, key2);
                lemma_reads_expr(props, *value, *value2);
            }
        },
        ExprKind::Element(x) => {
            if let ExprKind::Element(y) = b {
                lemma_reads_element(props, x, y);
            }
        },
        ExprKind::Array(x) => {
            if let ExprKind::Array(y) = b {
                lemma_reads_exprs(props, x, y, x@.len());
            }
        },
        ExprKind::MapLit(x) => {
            if let ExprKind::MapLit(y) = b {
                lemma_reads_map_entries(props, x, y, x@.len());
            }
        },
        ExprKind::Range { start, end, .. } => {
            if let ExprKind::Range { start: start2, end: end2, .. } = b {
                lemma_reads_expr(props, *start, *start2);
                lemma_reads_expr(props, *end, *end2);
            }
        },
        ExprKind::Str(x) => {
            if let ExprKind::Str(y) = b {
                lemma_reads_str_parts(props, x, y, x@.len());
            }
        },
        _ => {},
    }
}

proof fn lemma_reads_element_members(props: Seq<Seq<char>>, a: Vec<ElementMember>, b: Vec<ElementMember>, n: nat)
    requires
        element_members_lifted(props, a, b),
        !props.contains("__cute_state"@),
        n <= a@.len(),
    ensures
        reads_element_members(a, n) == reads_element_members(b, n),
    decreases a, n,
{
    if n > 0 {
        lemma_reads_element_members(props, a, b, (n - 1) as nat);
        assert(decreases_to!(a => a[n - 1]));
        assert(element_member_lifted(props, a[n - 1], b[n - 1]));
        lemma_reads_element_member(props, a[n - 1], b[n - 1]);
    }
}

proof fn lemma_reads_exprs(props: Seq<Seq<char>>, a: Vec<Expr>, b: Vec<Expr>, n: nat)
    requires
        exprs_lifted(props, a, b),
        !props.contains("__cute_state"@),
        n <= a@.len(),
    ensures
        reads_exprs(a, n) == reads_exprs(b, n),
    decreases a, n,
{
    if n > 0 {
        lemma_reads_exprs(props, a, b, (n - 1) as nat);
        assert(decreases_to!(a => a[n - 1]));
        assert(expr_lifted(props, a[n - 1], b[n - 1]));
        lemma_reads_expr(props, a[n - 1], b[n - 1]);
    }
}

proof fn lemma_reads_opt_boxed_expr(props: Seq<Seq<char>>, a: Option<Box<Expr>>, b: Option<Box<Expr>>)
    requires
        opt_boxed_expr_lifted(props, a, b),
        !props.contains("__cute_state"@),
    ensures
        reads_opt_boxed_expr(a) == reads_opt_boxed_expr(b),
    decreases a, 0nat,
{
    if let Some(x) = a {
        lemma_reads_expr(props, *x, *b->0);
    }
}

proof fn lemma_reads_block(props: Seq<Seq<char>>, a: Block, b: Block)
    requires
        block_lifted(props, a, b),
        !props.contains("__cute_state"@),
    ensures
        reads_block(a) == reads_block(b),
    decreases a, 0nat,
{
    lemma_reads_stmts(props, a.stmts, b.stmts, a.stmts@.len());
    lemma_reads_opt_boxed_expr(props, a.trailing, b.trailing);
}

proof fn lemma_reads_params(props: Seq<Seq<char>>, a: Vec<Param>, b: Vec<Param>, n: nat)
    requires
        params_lifted(props, a, b),
        !props.contains("__cute_state"@),
        n <= a@.len(),
    ensures
        reads_params(a, n) == reads_params(b, n),
    decreases a, n,
{
    if n > 0 {
        lemma_reads_params(props, a, b, (n - 1) as nat);
        assert(decreases_to!(a => a[n - 1]));
        assert(param_lifted(props, a[n - 1], b[n - 1]));
        lemma_reads_param(props, a[n - 1], b[n - 1]);
    }
}

proof fn lemma_reads_opt_block(props: Seq<Seq<char>>, a: Option<Block>, b: Option<Block>)
    requires
        opt_block_lifted(props, a, b),
        !props.contains("__cute_state"@),
    ensures
        reads_opt_block(a) == reads_opt_block(b),
    decreases a, 0nat,
{
    if let Some(x) = a {
        lemma_reads_block(props, x, b->0);
    }
}

proof fn lemma_reads_opt_let_binding(props: Seq<Seq<char>>, a: Option<LetBinding>, b: Option<LetBinding>)
    requires
        opt_let_binding_lifted(props, a, b),
        !props.contains("__cute_state"@),
    ensures
        reads_opt_let_binding(a) == reads_opt_let_binding(b),
    decreases a, 0nat,
{
    if let Some(x) = a {
        lemma_reads_let_binding(props, x, b->0);
    }
}

proof fn lemma_reads_case_arms(props: Seq<Seq<char>>, a: Vec<CaseArm>, b: Vec<CaseArm>, n: nat)
    requires
        case_arms_lifted(props, a, b),
        !props.contains("__cute_state"@),
        n <= a@.len(),
    ensures
        reads_case_arms(a, n) == reads_case_arms(b, n),
    decreases a, n,
{
    if n > 0 {
        lemma_reads_case_arms(props, a, b, (n - 1) as nat);
        assert(decreases_to!(a => a[n - 1]));
        assert(case_arm_lifted(props, a[n - 1], b[n - 1]));
        lemma_reads_case_arm(props, a[n - 1], b[n - 1]);
    }
}

proof fn lemma_reads_map_entries(props: Seq<Seq<char>>, a: Vec<MapEntry>, b: Vec<MapEntry>, n: nat)
    requires
        map_entries_lifted(props, a, b),
        !props.contains("__cute_state"@),
        n <= a@.len(),
    ensures
        reads_map_entries(a, n) == reads_map_entries(b, n),
    decreases a, n,
{
    if n > 0 {
        lemma_reads_map_entries(props, a, b, (n - 1) as nat);
        assert(decreases_to!(a => a[n - 1]));
        assert(map_entry_lifted(props, a[n - 1], b[n - 1]));
        lemma_reads_map_entry(props, a[n - 1], b[n - 1]);
    }
}

proof fn lemma_reads_str_parts(props: Seq<Seq<char>>, a: Vec<StrPart>, b: Vec<StrPart>, n: nat)
    requires
        str_parts_lifted(props, a, b),
        !props.contains("__cute_state"@),
        n <= a@.len(),
    ensures
        reads_str_parts(a, n) == reads_str_parts(b, n),
    decreases a, n,
{
    if n > 0 {
        lemma_reads_str_parts(props, a, b, (n - 1) as nat);
        assert(decreases_to!(a => a[n - 1]));
        assert(str_part_lifted(props, a[n - 1], b[n - 1]));
        lemma_reads_str_part(props, a[n - 1], b[n - 1]);
    }
}

proof fn lemma_reads_element_member(props: Seq<Seq<char>>, a: ElementMember, b: ElementMember)
    requires
        element_member_lifted(props, a, b),
        !props.contains("__cute_state"@),
    ensures
        reads_element_member(a) == reads_element_member(b),
    decreases a, 0nat,
{
    match a {
        ElementMember::Property { value, .. } => {
            if let ElementMember::Property { value: value2, .. } = b {
                lemma_reads_expr(props, value, value2);
            }
        },
        ElementMember::Child(x) => {
            if let ElementMember::Child(y) = b {
                lemma_reads_element(props, x, y);
            }
        },
        ElementMember::Stmt(x) => {
            if let ElementMember::Stmt(y) = b {
                lemma_reads_stmt(props, x, y);
            }
        },
    }
}

proof fn lemma_reads_stmts(props: Seq<Seq<char>>, a: Vec<Stmt>, b: Vec<Stmt>, n: nat)
    requires
        stmts_lifted(props, a, b),
        !props.contains("__cute_state"@),
        n <= a@.len(),
    ensures
        reads_stmts(a, n) == reads_stmts(b, n),
    decreases a, n,
{
    if n > 0 {
        lemma_reads_stmts(props, a, b, (n - 1) as nat);
        assert(decreases_to!(a => a[n - 1]));
        assert(stmt_lifted(props, a[n - 1], b[n - 1]));
        lemma_reads_stmt(props, a[n - 1], b[n - 1]);
    }
}

proof fn lemma_reads_param(props: Seq<Seq<char>>, a: Param, b: Param)
    requires
        param_lifted(props, a, b),
        !props.contains("__cute_state"@),
    ensures
        reads_param(a) == reads_param(b),
    decreases a, 0nat,
{
    lemma_ident(a.name, b.name);
    lemma_type_expr(a.ty, b.ty);
    lemma_reads_opt_expr(props, a.default, b.default);
}

proof fn lemma_reads_let_binding(props: Seq<Seq<char>>, a: LetBinding, b: LetBinding)
    requires
        let_binding_lifted(props, a, b),
        !props.contains("__cute_state"@),
    ensures
        reads_let_binding(a) == reads_let_binding(b),
    decreases a, 0nat,
{
    lemma_pattern(a.pattern, b.pattern);
    lemma_reads_expr(props, *a.value, *b.value);
}

proof fn lemma_reads_case_arm(props: Seq<Seq<char>>, a: CaseArm, b: CaseArm)
    requires
        case_arm_lifted(props, a, b),
        !props.contains("__cute_state"@),
    ensures
        reads_case_arm(a) == reads_case_arm(b),
    decreases a, 0nat,
{
    lemma_pattern(a.pattern, b.pattern);
    lemma_reads_block(props, a.body, b.body);
}

proof fn lemma_reads_map_entry(props: Seq<Seq<char>>, a: MapEntry, b: MapEntry)
    requires
        map_entry_lifted(props, a, b),
        !props.contains("__cute_state"@),
    ensures
        reads_map_entry(a) == reads_map_entry(b),
    decreases a, 0nat,
{
    lemma_reads_expr(props, a.key, b.key);
    lemma_reads_expr(props, a.value, b.value);
}

proof fn lemma_reads_str_part(props: Seq<Seq<char>>, a: StrPart, b: StrPart)
    requires
        str_part_lifted(props, a, b),
        !props.contains("__cute_state"@),
    ensures
        reads_str_part(a) == reads_str_part(b),
    decreases a, 0nat,
{
    match a {
        StrPart::Interp(x) => {
            if let StrPart::Interp(y) = b {
                lemma_reads_expr(props, *x, *y);
            }
        },
        StrPart::InterpFmt { expr, .. } => {
            if let StrPart::InterpFmt { expr: expr2, .. } = b {
                lemma_reads_expr(props, *expr, *expr2);
            }
        },
        _ => {},
    }
}

proof fn lemma_reads_stmt(props: Seq<Seq<char>>, a: Stmt, b: Stmt)
    requires
        stmt_lifted(props, a, b),
        !props.contains("__cute_state"@),
    ensures
        reads_stmt(a) == reads_stmt(b),
    decreases a, 0nat,
{
    match a {
        Stmt::Let { name, ty, value, .. } => {
            if let Stmt::Let { name: name2, ty: ty2, value: value2, .. } = b {
                lemma_ident(name, name2);
                lemma_opt_type_expr(ty, ty2);
                lemma_reads_expr(props, value, value2);
            }
        },
        Stmt::Var { name, ty, value, .. } => {
            if let Stmt::Var { name: name2, ty: ty2, value: value2, .. } = b {
                lemma_ident(name, name2);
                lemma_opt_type_expr(ty, ty2);
                lemma_reads_expr(props, value, value2);
            }
        },
        Stmt::Expr(x) => {
            if let Stmt::Expr(y) = b {
                lemma_reads_expr(props, x, y);
            }
        },
        Stmt::Return { value, .. } => {
            if let Stmt::Return { value: value2, .. } = b {
                lemma_reads_opt_expr(props, value, value2);
            }
        },
        Stmt::Emit { signal, args, .. } => {
            if let Stmt::Emit { signal: signal2, args: args2, .. } = b {
                lemma_ident(signal, signal2);
                lemma_reads_exprs(props, args, args2, args@.len());
            }
        },
        Stmt::Assign { target, value, .. } => {
            if let Stmt::Assign { target: target2, value: value2, .. } = b {
                lemma_reads_expr(props, target, target2);
                lemma_reads_expr(props, value, value2);
            }
        },
        Stmt::For { binding, iter, body, .. } => {
            if let Stmt::For { binding: binding2, iter: iter2, body: body2, .. } = b {
                lemma_ident(binding, binding2);
                lemma_reads_expr(props, iter, iter2);
                lemma_reads_block(props, body, body2);
            }
        },
        Stmt::While { cond, body, .. } => {
            if let Stmt::While { cond: cond2, body: body2, .. } = b {
                lemma_reads_expr(props, cond, cond2);
                lemma_reads_block(props, body, body2);
            }
        },
        Stmt::Batch { body, .. } => {
            if let Stmt::Batch { body: body2, .. } = b {
                lemma_reads_block(props, body, body2);
            }
        },
        _ => {},
    }
}

proof fn lemma_reads_opt_expr(props: Seq<Seq<char>>, a: Option<Expr>, b: Option<Expr>)
    requires
        opt_expr_lifted(props, a, b),
        !props.contains("__cute_state"@),
    ensures
        reads_opt_expr(a) == reads_opt_expr(b),
    decreases a, 0nat,
{
    if let Some(x) = a {
        lemma_reads_expr(props, x, b->0);
    }
}

// ---- laws --------------------------------------------------------------------------

/// A lifted expression reads the same names and holds the same literals, calls,
/// operators and types as before, in the same order.
pub proof fn law_lifted_expressions_read_the_same(props: Seq<Seq<char>>, a: Expr, b: Expr)
    requires
        expr_lifted(props, a, b),
        !props.contains("__cute_state"@),
    ensures
        reads_expr(a) == reads_expr(b),
{
    lemma_reads_expr(props, a, b);
}

/// The tree of a lifted widget reads the same names and holds the same elements,
/// properties and statements as before, and so do the values of its `let`
/// fields.
pub proof fn law_lifted_widgets_read_the_same(a: WidgetDecl, b: WidgetDecl, k: int)
    requires
        widget_lifted(a, b),
        !state_names(a).contains("__cute_state"@),
        0 <= k < object_fields(a.state_fields@, a.state_fields@.len() as int).len(),
    ensures
        reads_element(a.root) == reads_element(b.root),
        reads_expr(
            object_fields(a.state_fields@, a.state_fields@.len() as int)[k].init_expr,
        ) == reads_expr(b.state_fields@[k + 1].init_expr),
{
    let props = state_names(a);
    lemma_reads_element(props, a.root, b.root);
    let x = object_fields(a.state_fields@, a.state_fields@.len() as int)[k];
    assert(object_lifted(props, x, b.state_fields@[k + 1]));
    lemma_reads_expr(props, x.init_expr, b.state_fields@[k + 1].init_expr);
}

/// The tree of a lifted widget reads the same names as before.
pub proof fn law_lifted_trees_read_the_same(props: Seq<Seq<char>>, a: Element, b: Element)
    requires
        element_lifted(props, a, b),
        !props.contains("__cute_state"@),
    ensures
        reads_element(a) == reads_element(b),
{
    lemma_reads_element(props, a, b);
}

} // verus!
