use cute::ast::{
    Block, ClassMember, Expr, ExprKind, FileId, FnDecl, Ident, Item, LetDecl, Module, Span,
    StateField, StateFieldKind, Stmt, StoreDecl, SuiteDecl, TypeExpr, TypeKind,
};
use cute::desugar_store::desugar_store;
use cute::desugar_suite::desugar_suite;

fn span() -> Span {
    Span::new(FileId(0), 0, 0)
}

fn id(name: &str) -> Ident {
    Ident { name: name.to_string(), span: span() }
}

fn named(name: &str) -> TypeExpr {
    TypeExpr {
        kind: TypeKind::Named { path: vec![id(name)], args: vec![] },
        span: span(),
    }
}

fn number(n: i64) -> Expr {
    Expr { kind: ExprKind::Int(n), span: span() }
}

fn function(name: &str, stmts: Vec<Stmt>) -> FnDecl {
    FnDecl {
        is_async: false,
        name: id(name),
        generics: vec![],
        params: vec![],
        return_ty: None,
        body: Some(Block { stmts, trailing: None, span: span() }),
        is_pub: false,
        is_test: false,
        display_name: None,
        attributes: vec![],
        span: span(),
    }
}

fn test_fn(name: &str, display: &str) -> FnDecl {
    let mut f = function(name, vec![]);
    f.is_test = true;
    f.display_name = Some(display.to_string());
    f
}

fn module(items: Vec<Item>) -> Module {
    Module { items, span: span() }
}

fn state(name: &str, ty: &str, init: i64) -> StateField {
    StateField {
        name: id(name),
        kind: StateFieldKind::Property { ty: named(ty) },
        init_expr: number(init),
        span: span(),
    }
}

fn store(name: &str, state_fields: Vec<StateField>, members: Vec<ClassMember>) -> StoreDecl {
    StoreDecl { name: id(name), state_fields, members, is_pub: false, span: span() }
}

#[test]
fn empty_store_lowers_to_qobject_class_plus_singleton_let() {
    let m = desugar_store(module(vec![Item::Store(store("Empty", vec![], vec![]))]));
    assert_eq!(m.items.len(), 2);
    match (&m.items[0], &m.items[1]) {
        (Item::Class(c), Item::Let(l)) => {
            assert_eq!(c.name.name, "Empty");
            assert!(c.members.is_empty());
            assert!(matches!(
                &c.super_class,
                Some(TypeExpr { kind: TypeKind::Named { path, .. }, .. })
                    if path.last().map(|i| i.name.as_str()) == Some("QObject"),
            ));
            assert_eq!(l.name.name, "Empty");
            assert!(matches!(
                &l.value.kind,
                ExprKind::MethodCall { method, args, .. }
                    if method.name == "new" && args.is_empty(),
            ));
        }
        other => panic!("expected (Class, Let), got {other:?}"),
    }
}

#[test]
fn state_field_lowers_to_prop_plus_signal_pair() {
    let m = desugar_store(module(vec![Item::Store(store(
        "Counter",
        vec![state("value", "Int", 0)],
        vec![],
    ))]));
    let Item::Class(c) = &m.items[0] else {
        panic!("expected Class");
    };
    assert_eq!(c.members.len(), 2, "state field → prop + signal pair");
    let ClassMember::Property(p) = &c.members[0] else {
        panic!("expected Property first");
    };
    assert_eq!(p.name.name, "value");
    assert!(p.is_pub);
    assert!(matches!(
        p.notify.as_ref().map(|i| i.name.as_str()),
        Some("valueChanged")
    ));
    assert!(p.default.is_some());
    let ClassMember::Signal(sig) = &c.members[1] else {
        panic!("expected Signal second");
    };
    assert_eq!(sig.name.name, "valueChanged");
    assert!(sig.is_pub);
}

#[test]
fn user_methods_become_pub() {
    let m = desugar_store(module(vec![Item::Store(store(
        "Counter",
        vec![state("value", "Int", 0)],
        vec![ClassMember::Fn(function("bump", vec![]))],
    ))]));
    let Item::Class(c) = &m.items[0] else {
        panic!("expected Class");
    };
    let ClassMember::Fn(f) = &c.members[2] else {
        panic!("expected fn third, got {:?}", &c.members[2]);
    };
    assert_eq!(f.name.name, "bump");
    assert!(f.is_pub, "store members are forced `pub`");
}

#[test]
fn pub_propagates_to_class_and_let() {
    let mut hub = store("Hub", vec![], vec![]);
    hub.is_pub = true;
    let m = desugar_store(module(vec![Item::Store(hub)]));
    let (Item::Class(c), Item::Let(l)) = (&m.items[0], &m.items[1]) else {
        panic!("expected (Class, Let)");
    };
    assert!(c.is_pub);
    assert!(l.is_pub);
}

#[test]
fn module_without_store_passes_through() {
    let m = desugar_store(module(vec![Item::Fn(function("main", vec![]))]));
    assert_eq!(m.items.len(), 1);
    assert!(matches!(&m.items[0], Item::Fn(_)));
}

#[test]
fn suite_flattens_to_sibling_fns_with_display_names() {
    // The parser names a test after its suite.
    let suite = SuiteDecl {
        name: "compute".to_string(),
        tests: vec![
            test_fn("adds_positive_numbers", "compute / adds positive numbers"),
            test_fn("handles_zero", "compute / handles zero"),
        ],
        span: span(),
    };
    let m = desugar_suite(module(vec![Item::Suite(suite)]));
    assert_eq!(
        m.items.len(),
        2,
        "Item::Suite is dropped, tests become siblings"
    );
    let Item::Fn(f1) = &m.items[0] else {
        panic!("expected Fn first");
    };
    assert!(f1.is_test);
    assert_eq!(
        f1.display_name.as_deref(),
        Some("compute / adds positive numbers"),
    );
    let Item::Fn(f2) = &m.items[1] else {
        panic!("expected Fn second");
    };
    assert!(f2.is_test);
    assert_eq!(f2.display_name.as_deref(), Some("compute / handles zero"),);
}

#[test]
fn top_level_string_named_test_passes_through_unchanged() {
    let m = desugar_suite(module(vec![Item::Fn(test_fn("standalone", "standalone"))]));
    assert_eq!(m.items.len(), 1);
    let Item::Fn(f) = &m.items[0] else {
        panic!("expected Fn");
    };
    assert!(f.is_test);
    assert_eq!(f.display_name.as_deref(), Some("standalone"));
}

#[test]
fn modules_without_suites_are_untouched() {
    let m = desugar_suite(module(vec![Item::Fn(function("main", vec![]))]));
    assert_eq!(m.items.len(), 1);
    assert!(matches!(&m.items[0], Item::Fn(_)));
}

#[test]
fn store_and_suite_passes_keep_the_order_of_items() {
    let before = Item::Fn(function("first", vec![]));
    let after = Item::Let(LetDecl {
        name: id("last"),
        ty: named("Int"),
        value: number(7),
        is_pub: false,
        span: span(),
    });
    let m = desugar_store(module(vec![
        before,
        Item::Store(store("S", vec![], vec![])),
        after,
    ]));
    assert_eq!(m.items.len(), 4);
    assert!(matches!(&m.items[0], Item::Fn(f) if f.name.name == "first"));
    assert!(matches!(&m.items[1], Item::Class(c) if c.name.name == "S"));
    assert!(matches!(&m.items[2], Item::Let(l) if l.name.name == "S"));
    assert!(matches!(&m.items[3], Item::Let(l) if l.name.name == "last"));
}
