use cute::ast::{
    Block, ClassDecl, ClassMember, Element, ElementMember, EnumDecl, EnumVariant, Expr, ExprKind,
    FileId, FnDecl, Ident, ImplDecl, Item, LetBinding, LetDecl, Module, Param, Pattern,
    PropertyDecl, SignalDecl, Span,
    StateField, StateFieldKind, Stmt, StoreDecl, StructDecl, StyleBody, StyleDecl, StyleEntry,
    SuiteDecl, TypeExpr, TypeKind, UseDecl, UseKind, UseName, ViewDecl, WidgetDecl,
};
use cute::cmake::EmitResult;
use cute::desugar_state::desugar_widget_state;
use cute::frontend::{
    all_diagnostics, build_file, check_diagnostics, check_file, check_user_collisions, combine_modules, error_count,
    frontend_with_mode, inject_includes, lower_modules, merge_user_modules, prepare,
    prepend_after_pragma_once, Checks, DiagNote, Diagnostic, Severity,
};
use cute::library_qpi::{generate_library_qpi, render_qpi_type};
use cute::mangle::{build_emit_names, mangle_module};
use cute::manifest::{DriverError, Library, Manifest};
use cute::project::{build_project_info, module_of, ModuleFacts, ProjectInfo};
use cute::sources::{
    collect_use_targets, join_path, library_binding_file, load_library_bindings,
    load_manifest_bindings, manifest_binding_files, LibraryLookup, SourceWalk,
};
use cute::style::{desugar_module, EmitError, StyleEnv};

fn at(file: u32) -> Span {
    Span::new(FileId(file), 0, 0)
}

fn id(name: &str) -> Ident {
    Ident { name: name.to_string(), span: at(0) }
}

fn id_in(name: &str, file: u32, start: u32) -> Ident {
    Ident {
        name: name.to_string(),
        span: Span::new(FileId(file), start, start + name.len() as u32),
    }
}

fn ty(name: &str) -> TypeExpr {
    TypeExpr { kind: TypeKind::Named { path: vec![id(name)], args: vec![] }, span: at(0) }
}

fn ex(kind: ExprKind) -> Expr {
    Expr { kind, span: at(0) }
}

fn num(n: i64) -> Expr {
    ex(ExprKind::Int(n))
}

fn ident(name: &str) -> Expr {
    ex(ExprKind::Ident(name.to_string()))
}

fn module(file: u32, items: Vec<Item>) -> Module {
    Module { items, span: at(file) }
}

fn class(name: &str, file: u32, members: Vec<ClassMember>) -> ClassDecl {
    ClassDecl {
        name: id_in(name, file, 0),
        generics: vec![],
        super_class: Some(ty("QObject")),
        members,
        is_pub: true,
        is_extern_value: false,
        is_arc: false,
        is_copyable: false,
        span: at(file),
    }
}

fn prop(name: &str, t: &str) -> PropertyDecl {
    PropertyDecl {
        name: id(name),
        ty: ty(t),
        notify: None,
        default: Some(num(0)),
        is_pub: false,
        bindable: false,
        binding: None,
        fresh: None,
        model: false,
        constant: false,
        span: at(0),
        block_id: None,
    }
}

fn function(name: &str, stmts: Vec<Stmt>) -> FnDecl {
    FnDecl {
        is_async: false,
        name: id(name),
        generics: vec![],
        params: vec![],
        return_ty: None,
        body: Some(Block { stmts, trailing: None, span: at(0) }),
        is_pub: false,
        is_test: false,
        display_name: None,
        attributes: vec![],
        span: at(0),
    }
}

fn uses(path: &[&str]) -> Item {
    Item::Use(UseDecl {
        path: path.iter().map(|p| id(p)).collect(),
        kind: UseKind::Module(None),
        is_pub: false,
        span: at(0),
    })
}

fn element(name: &str, members: Vec<ElementMember>) -> Element {
    Element { path: vec![], name: id(name), members, span: at(0) }
}

fn view(name: &str, root: Element) -> Item {
    Item::View(ViewDecl {
        name: id(name),
        params: vec![],
        state_fields: vec![],
        root,
        is_pub: false,
        span: at(0),
    })
}

/// Walks a project whose files are given with what they import.
fn walk(files: Vec<(&str, Vec<Item>)>, manifest: &Manifest, dir: Option<&str>, extras: Vec<String>)
    -> Result<SourceWalk, DriverError> {
    let mut left: Vec<(String, Vec<Item>)> =
        files.into_iter().map(|(n, i)| (n.to_string(), i)).collect();
    let names: Vec<String> = left.iter().map(|f| f.0.clone()).collect();
    let dir = dir.map(|d| d.to_string());
    let mut w =
        SourceWalk::start("p/main.cute", manifest, &dir, &Some("p".to_string()), &extras);
    while let Some(file) = w.next() {
        if !w.enter(&file) {
            continue;
        }
        let k = left.iter().position(|f| f.0 == file).expect("file exists");
        let (_, items) = left.remove(k);
        let m = module(0, items);
        let there: Vec<bool> =
            collect_use_targets(&w.root, &m).iter().map(|t| names.contains(&t.file)).collect();
        w.absorb(m, &there)?;
    }
    Ok(w)
}

fn class_names(m: &Module) -> Vec<String> {
    m.items
        .iter()
        .filter_map(|i| match i {
            Item::Class(c) => Some(c.name.name.clone()),
            _ => None,
        })
        .collect()
}

// ---- sources ----

#[test]
fn use_decl_pulls_sibling_file_into_source_set() {
    let w = walk(
        vec![
            ("p/main.cute", vec![uses(&["model"]), view("Main", element("ApplicationWindow", vec![]))]),
            ("p/model.cute", vec![Item::Class(class("Counter", 1, vec![]))]),
        ],
        &Manifest::default(),
        None,
        vec![],
    )
    .expect("walk");
    assert_eq!(w.modules.len(), 2);
    assert_eq!(class_names(&merge_user_modules(&w.modules)), vec!["Counter"]);
}

#[test]
fn use_decl_resolves_transitive_imports() {
    let w = walk(
        vec![
            ("p/main.cute", vec![uses(&["a"]), uses(&["b"])]),
            ("p/a.cute", vec![uses(&["b"]), Item::Class(class("Mid", 1, vec![]))]),
            ("p/b.cute", vec![Item::Class(class("Inner", 2, vec![]))]),
        ],
        &Manifest::default(),
        None,
        vec![],
    )
    .expect("walk");
    assert_eq!(w.modules.len(), 3, "each file once");
    assert_eq!(class_names(&merge_user_modules(&w.modules)), vec!["Mid", "Inner"]);
}

#[test]
fn use_decl_missing_file_errors() {
    let err = walk(
        vec![("p/main.cute", vec![uses(&["missing"])])],
        &Manifest::default(),
        None,
        vec![],
    )
    .expect_err("expected use-not-found error");
    match err {
        DriverError::UseNotFound { use_path, resolved } => {
            assert_eq!(use_path, "missing");
            assert!(
                resolved.ends_with("missing.cute"),
                "unexpected resolved path: {resolved:?}"
            );
            assert_eq!(resolved, "p/missing.cute");
        }
        other => panic!("expected UseNotFound, got {other:?}"),
    }
}

#[test]
fn use_decl_handles_mutual_imports() {
    let w = walk(
        vec![
            ("p/main.cute", vec![uses(&["a"]), uses(&["b"])]),
            ("p/a.cute", vec![uses(&["b"]), Item::Class(class("A", 1, vec![]))]),
            ("p/b.cute", vec![uses(&["a"]), Item::Class(class("B", 2, vec![]))]),
        ],
        &Manifest::default(),
        None,
        vec![],
    )
    .expect("walk");
    assert_eq!(class_names(&merge_user_modules(&w.modules)), vec!["A", "B"]);
    assert_eq!(w.seen.len(), 3);
}

#[test]
fn use_decl_with_dotted_path_resolves_to_subdir() {
    let w = walk(
        vec![
            ("p/main.cute", vec![uses(&["models", "counter"])]),
            ("p/models/counter.cute", vec![Item::Class(class("Counter", 1, vec![]))]),
        ],
        &Manifest::default(),
        None,
        vec![],
    )
    .expect("walk");
    assert_eq!(class_names(&merge_user_modules(&w.modules)), vec!["Counter"]);
}

#[test]
fn use_decl_qt_prefix_is_noop() {
    let w = walk(
        vec![("p/main.cute", vec![uses(&["qt", "core"]), uses(&["qt", "widgets"])])],
        &Manifest::default(),
        None,
        vec![],
    )
    .expect("qt.* should be a no-op");
    assert_eq!(w.modules.len(), 1);
}

#[test]
fn entry_file_listed_in_sources_is_deduped() {
    let mut manifest = Manifest::default();
    manifest.sources.paths = vec!["main.cute".to_string()];
    let w = walk(
        vec![("p/main.cute", vec![Item::Class(class("Counter", 0, vec![]))])],
        &manifest,
        Some("p"),
        vec![],
    )
    .expect("walk");
    assert_eq!(w.modules.len(), 1);
    assert!(check_user_collisions(&w.modules).is_empty());
}

#[test]
fn parse_user_sources_merges_extras_alongside_entry() {
    let w = walk(
        vec![
            ("p/main.cute", vec![Item::Fn(function("alpha", vec![]))]),
            ("p/more.cute", vec![Item::Fn(function("beta", vec![]))]),
        ],
        &Manifest::default(),
        None,
        vec!["p/more.cute".to_string()],
    )
    .expect("walk");
    assert_eq!(w.modules.len(), 2);
    assert_eq!(merge_user_modules(&w.modules).items.len(), 2);
}

#[test]
fn paths_are_joined_as_directories() {
    assert_eq!(join_path("a", "b"), "a/b");
    assert_eq!(join_path("a/", "b"), "a/b");
    assert_eq!(join_path("a", "/b"), "/b");
    assert_eq!(join_path("", "b"), "b");
}

#[test]
fn local_bindings_paths_malformed_qpi_is_diagnostic() {
    let mut manifest = Manifest::default();
    manifest.bindings.paths = vec!["fine.qpi".to_string(), "broken.qpi".to_string()];
    let files = manifest_binding_files(&manifest, &Some("proj".to_string()));
    assert_eq!(files, vec!["proj/fine.qpi", "proj/broken.qpi"]);
    let err = load_manifest_bindings(
        &files,
        vec![Ok(module(0, vec![])), Err("expected a name".to_string())],
    )
    .expect_err("malformed local binding should bubble up as an error");
    let msg = err.message();
    assert!(msg.contains("broken.qpi"), "{msg}");
    assert_eq!(msg, "parse error: \"proj/broken.qpi\": expected a name");
    assert!(manifest_binding_files(&manifest, &None).is_empty());
}

#[test]
fn local_bindings_paths_loads_extra_qpi() {
    let m = module(0, vec![Item::Class(class("LocalBindingProbe", 0, vec![]))]);
    let v = load_manifest_bindings(&vec!["local.qpi".to_string()], vec![Ok(m)]).expect("loads");
    assert_eq!(v.len(), 1);
    assert_eq!(class_names(&v[0]), vec!["LocalBindingProbe"]);
}

// ---- diagnostics ----

#[test]
fn within_file_duplicate_still_errors() {
    let m = module(
        0,
        vec![
            Item::Class(class("Counter", 0, vec![])),
            Item::Class(class("Counter", 0, vec![])),
        ],
    );
    let diags = all_diagnostics(
        &vec![m],
        Checks { resolve: vec![], types: vec![], linearity: vec![] },
    );
    match check_diagnostics(&diags).expect_err("expected within-file duplicate error") {
        DriverError::Resolve { first, count } => {
            assert!(
                first.contains("duplicate top-level declaration `Counter`"),
                "wrong message: {first}"
            );
            assert_eq!(count, 1);
        }
        other => panic!("expected Resolve, got {other:?}"),
    }
}

#[test]
fn functions_may_share_a_name() {
    let m = module(
        0,
        vec![Item::Fn(function("f", vec![])), Item::Fn(function("f", vec![]))],
    );
    assert!(check_user_collisions(&vec![m]).is_empty());
}

#[test]
fn classes_of_two_files_may_share_a_name() {
    let a = module(0, vec![Item::Class(class("Counter", 0, vec![]))]);
    let b = module(1, vec![Item::Class(class("Counter", 1, vec![]))]);
    assert!(check_user_collisions(&vec![a, b]).is_empty());
}

fn diag(severity: Severity, message: &str) -> Diagnostic {
    Diagnostic { severity, primary: at(0), message: message.to_string(), notes: vec![] }
}

#[test]
fn only_errors_stop_a_build() {
    let mut diags = vec![diag(Severity::Warning, "w"), diag(Severity::Note, "n")];
    diags[0].notes.push(DiagNote { span: at(0), message: "here".to_string() });
    assert_eq!(error_count(&diags), 0);
    assert!(check_diagnostics(&diags).is_ok());
    diags.push(diag(Severity::Error, "first"));
    diags.push(diag(Severity::Error, "second"));
    assert_eq!(error_count(&diags), 2);
    match check_diagnostics(&diags) {
        Err(DriverError::Resolve { count, first }) => {
            assert_eq!((count, first.as_str()), (2, "first"));
        }
        other => panic!("unexpected {other:?}"),
    }
}

#[test]
fn a_check_counts_errors() {
    let m = module(
        0,
        vec![
            Item::Class(class("Counter", 0, vec![])),
            Item::Class(class("Counter", 0, vec![])),
        ],
    );
    let (diags, count) = check_file(
        &vec![m],
        Checks {
            resolve: vec![diag(Severity::Warning, "w")],
            types: vec![diag(Severity::Error, "t")],
            linearity: vec![],
        },
    );
    assert_eq!((diags.len(), count), (3, 2));
    assert_eq!(diags[2].message, "t");
}

#[test]
fn libraries_must_be_installed() {
    let deps = vec!["A".to_string(), "B".to_string()];
    let ok = |prefix: &str| LibraryLookup::Read {
        prefix: prefix.to_string(),
        parsed: Ok(module(0, vec![])),
    };
    assert_eq!(load_library_bindings(&deps, vec![ok("/a"), ok("/b")]).unwrap().len(), 2);
    let text = |l: LibraryLookup| match load_library_bindings(&deps, vec![ok("/a"), l]) {
        Err(e) => e.message(),
        Ok(_) => panic!("expected an error"),
    };
    assert!(text(LibraryLookup::Missing).contains("dep `B` not found in ~/.cache/cute/libraries/"));
    assert!(text(LibraryLookup::Unreadable { prefix: "/b".to_string(), error: "gone".to_string() })
        .contains("dep `B` install at \"/b\" is missing the .qpi binding (gone)"));
    assert_eq!(
        text(LibraryLookup::Read { prefix: "/b".to_string(), parsed: Err("bad".to_string()) }),
        "parse error: \"/b/share/cute/bindings/B.qpi\": bad"
    );
    assert_eq!(library_binding_file("/b", "B"), "/b/share/cute/bindings/B.qpi");
}

// ---- modules and projects ----

fn facts(name: &str, ambient: bool) -> ModuleFacts {
    ModuleFacts { name: Some(name.to_string()), ambient }
}

fn two_counters() -> (Module, ProjectInfo) {
    let a = module(0, vec![Item::Class(class("Counter", 0, vec![]))]);
    let main = module(
        1,
        vec![
            uses(&["a"]),
            Item::Class(class("Counter", 1, vec![])),
            Item::Class(class("Solo", 1, vec![])),
        ],
    );
    let modules = vec![a, main];
    let project =
        build_project_info(&modules, &vec![facts("a", false), facts("main", false)], &vec![]);
    (merge_user_modules(&modules), project)
}

#[test]
fn cross_module_same_name_compiles() {
    let (m, project) = two_counters();
    let (r, names) = mangle_module(&m, &project);
    assert_eq!(class_names(&r), vec!["A__Counter", "Main__Counter", "Solo"]);
    assert!(names.has_any_collision());
    assert_eq!(names.colliding_simple_names, vec!["Counter"]);
    assert_eq!(
        names.resolve("Counter", &Some("a".to_string()), &None).as_deref(),
        Some("A__Counter")
    );
    assert_eq!(
        names.resolve("Counter", &None, &Some("main".to_string())).as_deref(),
        Some("Main__Counter")
    );
}

#[test]
fn names_without_collisions_stay() {
    let m = module(0, vec![Item::Class(class("Counter", 0, vec![]))]);
    let project = build_project_info(&vec![], &vec![], &vec![]);
    let names = build_emit_names(&m, &project);
    assert!(!names.has_any_collision());
    let (r, _) = mangle_module(&m, &project);
    assert_eq!(class_names(&r), vec!["Counter"]);
}

#[test]
fn references_follow_the_renamed_class() {
    let a = module(0, vec![Item::Class(class("Counter", 0, vec![]))]);
    let mut holder = class("Holder", 1, vec![ClassMember::Property(prop("c", "Counter"))]);
    holder.super_class = None;
    let main = module(1, vec![Item::Class(class("Counter", 1, vec![])), Item::Class(holder)]);
    let modules = vec![a, main];
    let project =
        build_project_info(&modules, &vec![facts("a", false), facts("main", false)], &vec![]);
    let (r, _) = mangle_module(&merge_user_modules(&modules), &project);
    let Item::Class(c) = &r.items[2] else { panic!("class") };
    let ClassMember::Property(p) = &c.members[0] else { panic!("property") };
    let TypeKind::Named { path, .. } = &p.ty.kind else { panic!("named") };
    assert_eq!(path.last().unwrap().name, "Main__Counter");
}

#[test]
fn ambient_sources_auto_import_into_every_module() {
    let styles = module(0, vec![]);
    let main = module(1, vec![]);
    let info = build_project_info(
        &vec![styles, main],
        &vec![facts("styles", true), facts("main", false)],
        &vec![],
    );
    assert!(info.imports.iter().any(|i| i.module == "main" && i.target == "styles"));
    assert!(!info.imports.iter().any(|i| i.module == "styles" && i.target == "styles"));
    assert_eq!(module_of(FileId(1), &info).as_deref(), Some("main"));
    assert_eq!(module_of(FileId(7), &info), None);
}

#[test]
fn use_as_alias_introduces_local_module_name() {
    let main = module(
        0,
        vec![Item::Use(UseDecl {
            path: vec![id("model")],
            kind: UseKind::Module(Some(id("m"))),
            is_pub: false,
            span: at(0),
        })],
    );
    let info = build_project_info(&vec![main], &vec![facts("main", false)], &vec![]);
    assert!(info
        .aliases
        .iter()
        .any(|a| a.module == "main" && a.alias == "m" && a.target == "model"));
}

#[test]
fn selective_use_with_alias_renames_locally() {
    let main = module(
        0,
        vec![Item::Use(UseDecl {
            path: vec![id("model")],
            kind: UseKind::Names(vec![UseName { name: id("Counter"), alias: Some(id("C")) }]),
            is_pub: false,
            span: at(0),
        })],
    );
    let info = build_project_info(&vec![main], &vec![facts("main", false)], &vec![]);
    assert_eq!(info.selective_imports.len(), 1);
    let s = &info.selective_imports[0];
    assert_eq!(
        (s.module.as_str(), s.local.as_str(), s.source.as_str(), s.name.as_str()),
        ("main", "C", "model", "Counter")
    );
    assert!(!info.imports.iter().any(|i| i.target == "model"));
}

#[test]
fn bindings_come_before_the_program() {
    let user = module(3, vec![Item::Class(class("Mine", 3, vec![]))]);
    let bindings = vec![module(0, vec![Item::Class(class("QObject", 0, vec![]))])];
    let c = combine_modules(&user, &bindings);
    assert_eq!(class_names(&c), vec!["QObject", "Mine"]);
    let info = build_project_info(&vec![], &vec![], &bindings);
    assert!(info.prelude_items.contains(&"QObject".to_string()));
    let p = prepare(&vec![user], &bindings, &info);
    assert_eq!(class_names(&p.combined), vec!["QObject", "Mine"]);
    assert_eq!(class_names(&p.user), vec!["Mine"]);
}

#[test]
fn lowering_leaves_no_store_and_no_suite() {
    let m = module(
        0,
        vec![
            Item::Suite(SuiteDecl {
                name: "s".to_string(),
                tests: vec![function("t", vec![])],
                span: at(0),
            }),
            Item::Store(StoreDecl {
                name: id("App"),
                state_fields: vec![],
                members: vec![],
                is_pub: false,
                span: at(0),
            }),
        ],
    );
    let r = lower_modules(&vec![m]);
    assert_eq!(r.items.len(), 3);
    assert!(!r.items.iter().any(|i| matches!(i, Item::Store(_) | Item::Suite(_))));
}

// ---- widget state ----

fn state(name: &str, t: &str, init: i64) -> StateField {
    StateField {
        name: id(name),
        kind: StateFieldKind::Property { ty: ty(t) },
        init_expr: num(init),
        span: at(0),
    }
}

fn widget(name: &str, state_fields: Vec<StateField>, root: Element) -> Item {
    Item::Widget(WidgetDecl {
        name: id(name),
        params: vec![],
        state_fields,
        root,
        is_pub: false,
        span: at(0),
    })
}

#[test]
fn widget_state_moves_to_a_holder_class() {
    let root = element(
        "QLabel",
        vec![ElementMember::Property { key: "num".to_string(), value: ident("count"), span: at(0) }],
    );
    let m = desugar_widget_state(module(0, vec![widget("Main", vec![state("count", "Int", 3)], root)]));
    assert_eq!(m.items.len(), 2);
    let holders = class_names(&m);
    assert_eq!(holders.len(), 1);
    let w = m
        .items
        .iter()
        .find_map(|i| match i {
            Item::Widget(w) => Some(w),
            _ => None,
        })
        .expect("widget");
    assert!(w
        .state_fields
        .iter()
        .all(|f| matches!(f.kind, StateFieldKind::Object)));
    let ElementMember::Property { value, .. } = &w.root.members[0] else { panic!("property") };
    assert!(
        matches!(&value.kind, ExprKind::Member { name, .. } if name.name == "count"),
        "{value:?}"
    );
}

#[test]
fn widgets_without_state_are_left_alone() {
    let m = desugar_widget_state(module(0, vec![widget("Main", vec![], element("QLabel", vec![]))]));
    assert_eq!(m.items.len(), 1);
}

// ---- styles ----

fn entry(key: &str, value: i64) -> StyleEntry {
    StyleEntry { key: key.to_string(), value: num(value), span: at(0) }
}

fn style(name: &str, body: StyleBody) -> Item {
    Item::Style(StyleDecl { name: id(name), body, is_pub: false, span: at(0) })
}

fn plus(a: Expr, b: Expr) -> Expr {
    ex(ExprKind::Binary { op: cute::ast::BinOp::Add, lhs: Box::new(a), rhs: Box::new(b) })
}

fn values(v: &[(String, Expr)]) -> Vec<(String, i64)> {
    v.iter()
        .map(|(k, e)| match e.kind {
            ExprKind::Int(n) => (k.clone(), n),
            _ => panic!("number"),
        })
        .collect()
}

#[test]
fn the_right_style_wins() {
    let m = module(
        0,
        vec![
            style("Card", StyleBody::Lit(vec![entry("padding", 4), entry("margin", 1)])),
            style("Big", StyleBody::Lit(vec![entry("padding", 32)])),
            style("BigCard", StyleBody::Alias(plus(ident("Card"), ident("Big")))),
        ],
    );
    let env = StyleEnv::build(&m).expect("styles");
    let v = env.resolve_expr(&ident("BigCard")).expect("known");
    let got = values(&v);
    assert_eq!(got.iter().find(|e| e.0 == "padding").unwrap().1, 32);
    assert_eq!(got.iter().find(|e| e.0 == "margin").unwrap().1, 1);
    assert_eq!(got.len(), 2);
}

#[test]
fn style_errors() {
    let cycle = module(0, vec![style("A", StyleBody::Alias(ident("A")))]);
    assert!(matches!(StyleEnv::build(&cycle), Err(EmitError::StyleCycle(n)) if n == "A"));
    let pair = module(
        0,
        vec![style("A", StyleBody::Alias(ident("B"))), style("B", StyleBody::Alias(ident("A")))],
    );
    assert!(matches!(StyleEnv::build(&pair), Err(EmitError::StyleCycle(n)) if n == "A"));
    let unknown = module(0, vec![style("A", StyleBody::Alias(ident("B")))]);
    assert!(matches!(StyleEnv::build(&unknown), Err(EmitError::UnknownStyle(n)) if n == "B"));
    let odd = module(0, vec![style("A", StyleBody::Alias(num(1)))]);
    assert!(matches!(StyleEnv::build(&odd), Err(EmitError::UnsupportedStyleExpr)));
}

#[test]
fn a_style_property_becomes_its_entries() {
    let root = element(
        "Label",
        vec![
            ElementMember::Property { key: "style".to_string(), value: ident("Card"), span: at(0) },
            ElementMember::Property { key: "width".to_string(), value: num(9), span: at(0) },
        ],
    );
    let m = module(
        0,
        vec![
            style("Card", StyleBody::Lit(vec![entry("padding", 16)])),
            view("Main", root),
        ],
    );
    let r = desugar_module(&m).expect("styles");
    let Some(Item::View(v)) = r.items.iter().find(|i| matches!(i, Item::View(_))) else {
        panic!("view");
    };
    let keys: Vec<&str> = v
        .root
        .members
        .iter()
        .map(|m| match m {
            ElementMember::Property { key, .. } => key.as_str(),
            _ => panic!("property"),
        })
        .collect();
    assert_eq!(keys, vec!["padding", "width"]);
}

#[test]
fn styles_inside_expressions_are_replaced() {
    let styled = || {
        element(
            "Rectangle",
            vec![
                ElementMember::Property { key: "style".to_string(), value: ident("Card"), span: at(0) },
                ElementMember::Property { key: "style".to_string(), value: ident("Odd"), span: at(0) },
            ],
        )
    };
    let item = || ex(ExprKind::Element(styled()));
    let member = |key: &str, value: Expr| ElementMember::Property {
        key: key.to_string(),
        value,
        span: at(0),
    };
    let call = ex(ExprKind::Call {
        callee: Box::new(ident("wrap")),
        args: vec![item()],
        block: None,
        type_args: vec![],
    });
    let root = element(
        "ListView",
        vec![
            member("delegate", item()),
            member("states", ex(ExprKind::Array(vec![item()]))),
            member("footer", call),
            ElementMember::Child(styled()),
        ],
    );
    let m = module(
        0,
        vec![style("Card", StyleBody::Lit(vec![entry("padding", 16)])), view("Main", root)],
    );
    let r = desugar_module(&m).expect("styles");
    let text = format!("{:?}", r.items[1]);
    assert_eq!(text.matches("\"padding\"").count(), 4, "{text}");
    assert!(!text.contains("\"Card\""), "{text}");
    assert_eq!(text.matches("\"Odd\"").count(), 4, "what is no style stays: {text}");
    let twice = desugar_module(&r).expect("styles");
    assert_eq!(format!("{twice:?}"), format!("{r:?}"));
}

// ---- bindings of a library ----

fn library() -> Library {
    Library {
        name: "LibCounter".to_string(),
        version: "0.1.0".to_string(),
        description: "test".to_string(),
    }
}

#[test]
fn library_qpi_emits_pub_class_with_signatures() {
    let mut p = prop("count", "Int");
    p.is_pub = true;
    p.notify = Some(id("countChanged"));
    let signal = SignalDecl { name: id("countChanged"), params: vec![], is_pub: true, span: at(0) };
    let mut increment = function(
        "increment",
        vec![Stmt::Assign {
            target: ident("count"),
            op: cute::ast::AssignOp::Eq,
            value: plus(ident("count"), num(1)),
            span: at(0),
        }],
    );
    increment.is_pub = true;
    let helper = function("privateHelper", vec![Stmt::Return { value: None, span: at(0) }]);
    let c = class(
        "LibCounter",
        0,
        vec![
            ClassMember::Property(p),
            ClassMember::Signal(signal),
            ClassMember::Fn(increment),
            ClassMember::Fn(helper),
        ],
    );
    let qpi = generate_library_qpi(&library(), &module(0, vec![Item::Class(c)]));
    assert!(qpi.contains("class LibCounter < QObject"), "{qpi}");
    assert!(qpi.contains("prop count : Int"), "{qpi}");
    assert!(qpi.contains("signal countChanged"), "{qpi}");
    assert!(qpi.contains("fn increment"), "{qpi}");
    assert!(!qpi.contains("count = count + 1"), "method body leaked into qpi:\n{qpi}");
    assert!(!qpi.contains("privateHelper"), "non-pub method leaked into qpi:\n{qpi}");
}

#[test]
fn signals_of_a_library_keep_their_parameters() {
    let moved = SignalDecl {
        name: id("moved"),
        params: vec![Param {
            name: id("by"),
            ty: ty("Int"),
            default: None,
            is_escaping: false,
            is_consuming: false,
            span: at(0),
        }],
        is_pub: true,
        span: at(0),
    };
    let c = class("Dot", 0, vec![ClassMember::Signal(moved)]);
    let qpi = generate_library_qpi(&library(), &module(0, vec![Item::Class(c)]));
    assert!(qpi.contains("  signal moved(by: Int)\n"), "{qpi}");
}

#[test]
fn library_qpi_leaves_private_items_out() {
    let mut hidden = class("Hidden", 0, vec![]);
    hidden.is_pub = false;
    let with = generate_library_qpi(
        &library(),
        &module(0, vec![Item::Class(class("Shown", 0, vec![])), Item::Class(hidden)]),
    );
    let without = generate_library_qpi(
        &library(),
        &module(0, vec![Item::Class(class("Shown", 0, vec![]))]),
    );
    assert_eq!(with, without);
}

#[test]
fn types_of_bindings_as_text() {
    assert_eq!(render_qpi_type(&ty("Int")), "Int");
    let list = TypeExpr {
        kind: TypeKind::Named { path: vec![id("List")], args: vec![ty("String")] },
        span: at(0),
    };
    assert_eq!(render_qpi_type(&list), "List<String>");
    let opt = TypeExpr { kind: TypeKind::Nullable(Box::new(ty("Int"))), span: at(0) };
    assert_eq!(render_qpi_type(&opt), "Int?");
    let fails = TypeExpr { kind: TypeKind::ErrorUnion(Box::new(ty("Int"))), span: at(0) };
    assert_eq!(render_qpi_type(&fails), "!Int");
}

// ---- the header ----

fn emitted(header: &str) -> EmitResult {
    EmitResult {
        header_filename: "demo.h".to_string(),
        header: header.to_string(),
        source_filename: "demo.cpp".to_string(),
        source: "int main() {}".to_string(),
        views: vec![],
    }
}

#[test]
fn extra_lines_follow_the_pragma() {
    let mut h = "// x\n#pragma once\n#include <a>\n".to_string();
    prepend_after_pragma_once(&mut h, "#include <b>\n");
    assert_eq!(h, "// x\n#pragma once\n#include <b>\n#include <a>\n");
    let mut bare = "int x;\n".to_string();
    prepend_after_pragma_once(&mut bare, "#include <b>\n");
    assert_eq!(bare, "#include <b>\nint x;\n");
}

#[test]
fn manifest_includes_reach_the_header() {
    let mut manifest = Manifest::default();
    let plain = inject_includes("#pragma once\n".to_string(), &manifest);
    assert_eq!(plain, "#pragma once\n");
    manifest.cpp.includes = vec!["<KLocalizedString>".to_string()];
    let with = inject_includes("#pragma once\nint x;\n".to_string(), &manifest);
    assert!(with.starts_with("#pragma once\n"), "{with}");
    assert!(with.contains("#include <KLocalizedString>\n"), "{with}");
    assert!(with.ends_with("int x;\n"), "{with}");
}

#[test]
fn a_file_without_a_stem_is_refused() {
    let manifest = Manifest::default();
    let r = frontend_with_mode(&None, "..", &manifest, &vec![], Ok(emitted("#pragma once\n")));
    match r {
        Err(e) => assert_eq!(e.message(), "input has no file stem: \"..\""),
        Ok(_) => panic!("expected an error"),
    }
    let ok = frontend_with_mode(
        &Some("demo".to_string()),
        "demo.cute",
        &manifest,
        &vec![],
        Ok(emitted("#pragma once\n")),
    )
    .expect("front end");
    assert_eq!(ok.0, "demo");
    assert_eq!(ok.1.header, "#pragma once\n");
    let files = build_file(&ok.1, "out");
    assert_eq!(files[0], ("out/demo.h".to_string(), "#pragma once\n".to_string()));
    assert_eq!(files[1].0, "out/demo.cpp");
    let bad = frontend_with_mode(
        &Some("demo".to_string()),
        "demo.cute",
        &manifest,
        &vec![],
        Err("style cycle".to_string()),
    );
    match bad {
        Err(e) => assert_eq!(e.message(), "codegen error: style cycle"),
        Ok(_) => panic!("expected an error"),
    }
}

#[test]
fn other_items_survive_renaming() {
    let e = EnumDecl {
        name: id("Color"),
        variants: vec![EnumVariant {
            name: id("Red"),
            value: None,
            fields: vec![],
            is_pub: true,
            span: at(0),
        }],
        is_pub: true,
        is_extern: false,
        is_error: false,
        cpp_namespace: None,
        span: at(0),
    };
    let s = StructDecl {
        name: id("P"),
        fields: vec![],
        methods: vec![],
        is_pub: true,
        is_copyable: true,
        span: at(0),
    };
    let l = LetDecl { name: id("k"), ty: ty("Int"), value: num(1), is_pub: false, span: at(0) };
    let i = ImplDecl { trait_name: id("Show"), for_type: ty("P"), methods: vec![], span: at(0) };
    let m = module(0, vec![Item::Enum(e), Item::Struct(s), Item::Let(l), Item::Impl(i)]);
    let (r, _) = mangle_module(&m, &build_project_info(&vec![], &vec![], &vec![]));
    assert_eq!(format!("{r:?}"), format!("{m:?}"));
}

#[test]
fn binding_classes_keep_their_names() {
    let user = module(1, vec![Item::Class(class("Counter", 1, vec![]))]);
    let binding = module(0, vec![Item::Class(class("Counter", 0, vec![]))]);
    let project =
        build_project_info(&vec![module(1, vec![])], &vec![facts("main", false)], &vec![]);
    let combined = combine_modules(&user, &vec![binding]);
    let (r, names) = mangle_module(&combined, &project);
    assert!(!names.has_any_collision(), "only classes of modules collide");
    assert_eq!(class_names(&r), vec!["Counter", "Counter"]);
}

#[test]
fn qualified_elements_lose_their_qualifier() {
    let model = module(0, vec![Item::Class(class("Counter", 0, vec![]))]);
    let mut e = element("Counter", vec![]);
    e.path = vec![id("model")];
    let mut v = view("Main", e);
    if let Item::View(d) = &mut v {
        d.span = at(1);
    }
    let modules = vec![model, module(1, vec![v])];
    let project =
        build_project_info(&modules, &vec![facts("model", false), facts("main", false)], &vec![]);
    let (r, _) = mangle_module(&merge_user_modules(&modules), &project);
    let Item::View(d) = &r.items[1] else { panic!("view") };
    assert!(d.root.path.is_empty());
    assert_eq!(d.root.name.name, "Counter");
}

#[test]
fn lifting_twice_changes_nothing() {
    let make = || {
        let root = element("QLabel", vec![]);
        desugar_widget_state(module(0, vec![widget("Main", vec![state("count", "Int", 3)], root)]))
    };
    let once = make();
    assert_eq!(class_names(&once), vec!["__MainState"]);
    let twice = desugar_widget_state(make());
    assert_eq!(format!("{once:?}"), format!("{twice:?}"));
}

#[test]
fn assignments_reach_the_holder() {
    let root = element(
        "QPushButton",
        vec![ElementMember::Stmt(Stmt::Assign {
            target: ident("count"),
            op: cute::ast::AssignOp::PlusEq,
            value: plus(ident("count"), ident("other")),
            span: at(0),
        })],
    );
    let m = desugar_widget_state(module(0, vec![widget("Main", vec![state("count", "Int", 0)], root)]));
    let Some(Item::Widget(w)) = m.items.iter().find(|i| matches!(i, Item::Widget(_))) else {
        panic!("widget");
    };
    assert_eq!(w.state_fields[0].name.name, "__cute_state");
    let ElementMember::Stmt(Stmt::Assign { target, value, .. }) = &w.root.members[0] else {
        panic!("assignment");
    };
    let is_state = |e: &Expr| {
        matches!(&e.kind, ExprKind::Member { receiver, name }
            if name.name == "count"
                && matches!(&receiver.kind, ExprKind::Ident(r) if r == "__cute_state"))
    };
    assert!(is_state(target));
    let ExprKind::Binary { lhs, rhs, .. } = &value.kind else { panic!("sum") };
    assert!(is_state(lhs));
    assert!(matches!(&rhs.kind, ExprKind::Ident(n) if n == "other"));
}

fn block(trailing: Expr) -> Block {
    Block { stmts: vec![], trailing: Some(Box::new(trailing)), span: at(0) }
}

fn reads_count(e: &Expr) -> bool {
    matches!(&e.kind, ExprKind::Member { receiver, name }
        if name.name == "count"
            && matches!(&receiver.kind, ExprKind::Ident(r) if r == "__cute_state"))
}

#[test]
fn every_part_of_an_expression_is_lifted() {
    let bound = ex(ExprKind::If {
        cond: Box::new(ex(ExprKind::Bool(true))),
        then_b: block(num(1)),
        else_b: None,
        let_binding: Some(LetBinding {
            pattern: Pattern::Bind { name: id("x"), span: at(0) },
            value: Box::new(ident("count")),
        }),
    });
    let lambda = ex(ExprKind::Lambda {
        params: vec![Param {
            name: id("n"),
            ty: ty("Int"),
            default: Some(ident("count")),
            is_escaping: false,
            is_consuming: false,
            span: at(0),
        }],
        body: block(ident("other")),
    });
    let member = |key: &str, value: Expr| ElementMember::Property {
        key: key.to_string(),
        value,
        span: at(0),
    };
    let root = element("QLabel", vec![member("a", bound), member("b", lambda)]);
    let sub = StateField {
        name: id("timer"),
        kind: StateFieldKind::Object,
        init_expr: ex(ExprKind::Call {
            callee: Box::new(ident("Timer")),
            args: vec![ident("count")],
            block: None,
            type_args: vec![],
        }),
        span: at(0),
    };
    let m = desugar_widget_state(module(
        0,
        vec![widget("Main", vec![state("count", "Int", 0), sub], root)],
    ));
    let Some(Item::Widget(w)) = m.items.iter().find(|i| matches!(i, Item::Widget(_))) else {
        panic!("widget");
    };
    let value = |k: usize| match &w.root.members[k] {
        ElementMember::Property { value, .. } => value,
        other => panic!("{other:?}"),
    };
    let ExprKind::If { let_binding: Some(b), .. } = &value(0).kind else { panic!("if let") };
    assert!(reads_count(&b.value));
    let ExprKind::Lambda { params, body } = &value(1).kind else { panic!("lambda") };
    assert!(reads_count(params[0].default.as_ref().expect("default")));
    assert!(matches!(&body.trailing.as_ref().expect("value").kind, ExprKind::Ident(n) if n == "other"));
    let timer = w.state_fields.iter().find(|f| f.name.name == "timer").expect("timer");
    let ExprKind::Call { args, .. } = &timer.init_expr.kind else { panic!("call") };
    assert!(reads_count(&args[0]));
}

#[test]
fn types_inside_expressions_are_renamed() {
    let a = module(0, vec![Item::Class(class("Counter", 0, vec![]))]);
    let call = ex(ExprKind::Call {
        callee: Box::new(ident("make")),
        args: vec![],
        block: None,
        type_args: vec![ty("Counter")],
    });
    let mut f = function("run", vec![Stmt::Expr(call)]);
    f.span = at(1);
    let mut v = view("Main", element("Item", vec![]));
    if let Item::View(d) = &mut v {
        d.span = at(1);
        d.state_fields = vec![state("c", "Counter", 0)];
    }
    let l = LetDecl {
        name: id("shared"),
        ty: ty("Counter"),
        value: ex(ExprKind::MethodCall {
            receiver: Box::new(ident("Counter")),
            method: id("new"),
            args: vec![],
            block: None,
            type_args: vec![],
        }),
        is_pub: false,
        span: at(1),
    };
    let main = module(
        1,
        vec![Item::Class(class("Counter", 1, vec![])), Item::Fn(f), v, Item::Let(l)],
    );
    let modules = vec![a, main];
    let project =
        build_project_info(&modules, &vec![facts("a", false), facts("main", false)], &vec![]);
    let (r, _) = mangle_module(&merge_user_modules(&modules), &project);
    let last = |t: &TypeExpr| match &t.kind {
        TypeKind::Named { path, .. } => path.last().expect("name").name.clone(),
        other => panic!("{other:?}"),
    };
    let Item::Fn(f) = &r.items[2] else { panic!("fn") };
    let Stmt::Expr(e) = &f.body.as_ref().expect("body").stmts[0] else { panic!("statement") };
    let ExprKind::Call { type_args, .. } = &e.kind else { panic!("call") };
    assert_eq!(last(&type_args[0]), "Main__Counter");
    let Item::View(d) = &r.items[3] else { panic!("view") };
    let StateFieldKind::Property { ty } = &d.state_fields[0].kind else { panic!("property") };
    assert_eq!(last(ty), "Main__Counter");
    let Item::Let(l) = &r.items[4] else { panic!("let") };
    assert_eq!(l.name.name, "shared");
    assert_eq!(last(&l.ty), "Main__Counter");
    let ExprKind::MethodCall { receiver, .. } = &l.value.kind else { panic!("call") };
    assert!(matches!(&receiver.kind, ExprKind::Ident(n) if n == "Main__Counter"));
}
