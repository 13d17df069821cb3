use cute::ast::{
    ClassDecl, ClassMember, FileId, FnDecl, Ident, Item, Module, Span, TypeExpr, TypeKind, UseQml,
};
use cute::binding::{
    apply_namespace_mangle, binding_source_name, collect_qml_module_specs, load_qml_module,
    load_stdlib, load_stdlib_with_cute_ui, lookup_qml_module, parse_qpi, stdlib_binding_names,
    BindingError,
};

fn span() -> Span {
    Span::new(FileId(0), 0, 0)
}

fn id(name: &str) -> Ident {
    Ident { name: name.to_string(), span: span() }
}

fn ty(name: &str) -> TypeExpr {
    TypeExpr { kind: TypeKind::Named { path: vec![id(name)], args: vec![] }, span: span() }
}

fn method(name: &str, ret: Option<TypeExpr>) -> ClassMember {
    ClassMember::Fn(FnDecl {
        is_async: false,
        name: id(name),
        generics: vec![],
        params: vec![],
        return_ty: ret,
        body: None,
        is_pub: true,
        is_test: false,
        display_name: None,
        attributes: vec![],
        span: span(),
    })
}

fn class(name: &str, sup: Option<&str>, members: Vec<ClassMember>) -> Item {
    Item::Class(ClassDecl {
        name: id(name),
        generics: vec![],
        super_class: sup.map(ty),
        members,
        is_pub: true,
        is_extern_value: false,
        is_arc: false,
        is_copyable: false,
        span: span(),
    })
}

fn module(items: Vec<Item>) -> Module {
    Module { items, span: span() }
}

fn names(m: &Module) -> Vec<String> {
    m.items
        .iter()
        .filter_map(|i| match i {
            Item::Class(c) => Some(c.name.name.clone()),
            _ => None,
        })
        .collect()
}

/// One empty module for each bundled binding, but for those that are given.
fn stdlib(given: Vec<(&str, Module)>) -> Vec<Result<Module, String>> {
    let mut given: Vec<(String, Module)> =
        given.into_iter().map(|(n, m)| (n.to_string(), m)).collect();
    stdlib_binding_names()
        .iter()
        .map(|n| match given.iter().position(|g| &g.0 == n) {
            Some(k) => Ok(given.remove(k).1),
            None => Ok(module(vec![])),
        })
        .collect()
}

fn qobject_file() -> String {
    stdlib_binding_names()
        .into_iter()
        .find(|n| n.contains("qobject"))
        .expect("a binding of QObject")
}

fn find<'a>(modules: &'a [Module], name: &str) -> Option<&'a ClassDecl> {
    modules.iter().flat_map(|m| m.items.iter()).find_map(|i| match i {
        Item::Class(c) if c.name.name == name => Some(c),
        _ => None,
    })
}

#[test]
fn qobject_binding_parses_and_has_methods() {
    let m = module(vec![class(
        "QObject",
        Some("QObject"),
        vec![method("deleteLater", None), method("setParent", None)],
    )]);
    let modules = load_stdlib(stdlib(vec![(&qobject_file(), m)])).expect("load stdlib");
    assert!(!modules.is_empty());
    let qobject = find(&modules, "QObject").expect("QObject class in stdlib");
    let method_names: Vec<&str> = qobject
        .members
        .iter()
        .filter_map(|m| match m {
            ClassMember::Fn(f) => Some(f.name.name.as_str()),
            _ => None,
        })
        .collect();
    assert!(method_names.contains(&"deleteLater"));
    assert!(method_names.contains(&"setParent"));
}

#[test]
fn qobject_super_class_is_genuinely_none() {
    let m = module(vec![
        class("QObject", Some("QObject"), vec![]),
        class("QTimer", Some("QObject"), vec![]),
    ]);
    let modules = load_stdlib(stdlib(vec![(&qobject_file(), m)])).expect("load stdlib");
    assert!(
        find(&modules, "QObject").unwrap().super_class.is_none(),
        "QObject is the root, no super"
    );
    assert!(find(&modules, "QTimer").unwrap().super_class.is_some());
}

#[test]
fn stdlib_does_not_auto_load_kirigami() {
    assert!(!stdlib_binding_names().iter().any(|n| n.contains("kirigami")));
}

#[test]
fn load_qml_module_kirigami_with_alias_namespace_mangles() {
    let kirigami = module(
        ["ApplicationWindow", "Page", "PageRow", "ScrollablePage", "Theme"]
            .iter()
            .map(|n| class(n, None, vec![]))
            .collect(),
    );
    let m = load_qml_module("org.kde.kirigami", Some("Kirigami"), Ok(kirigami))
        .expect("load qml module")
        .expect("kirigami URI is bundled");
    let class_names = names(&m);
    for expected in [
        "Kirigami_ApplicationWindow",
        "Kirigami_Page",
        "Kirigami_PageRow",
        "Kirigami_ScrollablePage",
        "Kirigami_Theme",
    ] {
        assert!(
            class_names.iter().any(|n| n == expected),
            "alias `Kirigami` should namespace-mangle `{expected}`"
        );
    }
}

#[test]
fn load_qml_module_kirigami_without_alias_keeps_bare_names() {
    let kirigami = module(vec![class("PageRow", None, vec![]), class("Page", None, vec![])]);
    let m = load_qml_module("org.kde.kirigami", None, Ok(kirigami))
        .expect("load qml module")
        .expect("kirigami URI is bundled");
    assert_eq!(names(&m), vec!["PageRow", "Page"]);
}

#[test]
fn load_qml_module_kitemmodels_namespace_mangles() {
    let models = module(vec![
        class("SortFilterProxyModel", None, vec![]),
        class("ConcatenateRowsProxyModel", None, vec![]),
    ]);
    let m = load_qml_module("org.kde.kitemmodels", Some("Kim"), Ok(models))
        .expect("load qml module")
        .expect("kitemmodels URI is bundled");
    assert_eq!(names(&m), vec!["Kim_SortFilterProxyModel", "Kim_ConcatenateRowsProxyModel"]);
}

#[test]
fn load_qml_module_coreaddons_qml_namespace_mangles() {
    let addons = module(vec![class("Format", None, vec![]), class("AboutData", None, vec![])]);
    let m = load_qml_module("org.kde.coreaddons", Some("KC"), Ok(addons))
        .expect("load qml module")
        .expect("coreaddons QML URI is bundled");
    assert_eq!(names(&m), vec!["KC_Format", "KC_AboutData"]);
}

#[test]
fn load_qml_module_unknown_uri_returns_none() {
    let res = load_qml_module("com.example.unknown", None, Ok(module(vec![])))
        .expect("no parse error");
    assert!(
        res.is_none(),
        "unknown URIs return None — type-check soft-passes"
    );
}

#[test]
fn references_inside_a_namespace_follow() {
    let mut m = module(vec![
        class("Page", Some("Item"), vec![method("next", Some(ty("Page")))]),
        class("Theme", Some("Page"), vec![]),
    ]);
    apply_namespace_mangle(&mut m, "K");
    let Item::Class(page) = &m.items[0] else { panic!("class") };
    let leaf = |t: &TypeExpr| match &t.kind {
        TypeKind::Named { path, .. } => path.last().unwrap().name.clone(),
        _ => panic!("named"),
    };
    assert_eq!(leaf(page.super_class.as_ref().unwrap()), "Item", "a foreign class stays");
    let ClassMember::Fn(f) = &page.members[0] else { panic!("method") };
    assert_eq!(leaf(f.return_ty.as_ref().unwrap()), "K_Page");
    let Item::Class(theme) = &m.items[1] else { panic!("class") };
    assert_eq!(leaf(theme.super_class.as_ref().unwrap()), "K_Page");
}

#[test]
fn parse_errors_name_the_binding() {
    let BindingError::Parse { name, message } =
        parse_qpi("x.qpi", Err("bad".to_string())).expect_err("error");
    assert_eq!((name.as_str(), message.as_str()), ("x.qpi", "bad"));
    let e = load_qml_module("org.kde.kirigami", None, Err("bad".to_string())).expect_err("error");
    assert_eq!(e.message(), "failed to parse binding `kirigami.qpi`: bad");
    let mut parsed = stdlib(vec![]);
    parsed[1] = Err("first".to_string());
    parsed[2] = Err("second".to_string());
    let e = load_stdlib(parsed).expect_err("error");
    assert_eq!(
        e.message(),
        format!("failed to parse binding `{}`: first", stdlib_binding_names()[1])
    );
    assert_eq!(binding_source_name("x.qpi"), "<binding:x.qpi>");
}

#[test]
fn the_runtime_binding_comes_on_request() {
    let plain = load_stdlib_with_cute_ui(stdlib(vec![]), None).expect("loads").len();
    let with = load_stdlib_with_cute_ui(
        stdlib(vec![]),
        Some(Ok(module(vec![class("Canvas", None, vec![])]))),
    )
    .expect("loads");
    assert_eq!(with.len(), plain + 1);
    assert!(find(&with, "Canvas").is_some());
}

#[test]
fn qml_modules_of_a_program() {
    let b = lookup_qml_module("org.kde.kirigami").expect("known");
    assert_eq!(b.binding_name, "kirigami.qpi");
    assert!(lookup_qml_module("QtQuick").expect("known").qpi_source.is_none());
    assert!(lookup_qml_module("nope").is_none());
    let use_qml = |uri: &str, alias: Option<&str>| {
        Item::UseQml(UseQml {
            module_uri: uri.to_string(),
            alias: alias.map(id),
            span: span(),
        })
    };
    let v = collect_qml_module_specs(&vec![module(vec![
        use_qml("org.kde.kirigami", Some("Kirigami")),
        use_qml("com.example.x", None),
    ])]);
    assert_eq!(v.len(), 2);
    assert_eq!(v[0].module_uri, "org.kde.kirigami");
    assert_eq!(v[0].alias.as_deref(), Some("Kirigami"));
    assert!(v[0].binding_loaded);
    assert!(!v[1].binding_loaded);
}
