use cute::collect::{
    clang_args, collect, collect_one_off, enum_constant_value_text, parse_kind, plan_run,
    walk_up_to_frameworks, Listing, Request,
};
use cute::cpp::{
    map_type, strip_const, Access, CppClass, CppMember, CppParam, CppType, Token, TokenKind,
    TypeLayer,
};
use cute::dict::Dict;
use cute::methods::{collect_public_methods, method_signature};
use cute::packages::HostOs;
use cute::qpi_emit::{emit, emit_methods};
use cute::qpi_types::{
    ClassKind, ClassSpec, CollectedClass, CuteType, EnumVariantInfo, Method, Param, Property,
};
use cute::scrape::{
    collect_enum_names, scan_properties, AliasTarget, Decl, DeclKind, EnumConstant, SourceToken,
};
use cute::type_table::build_type_map;
use cute::typesystem::{substitute, substitute_path, ClangConfig, TypeSystem};

fn lifted_method(name: &str, params: Vec<Param>, ret: CuteType) -> Method {
    Method {
        name: name.to_string(),
        params,
        return_ty: ret,
        lifted_bool_ok: true,
    }
}

fn p(n: &str, ty: &str) -> Param {
    Param {
        name: n.to_string(),
        ty: CuteType::Named(ty.to_string()),
    }
}

#[test]
fn lifted_bool_ok_emits_attribute_marker_with_bang_t_return() {
    let methods = vec![
        lifted_method("toInt", vec![], CuteType::Named("Int".into())),
        lifted_method(
            "toInt",
            vec![p("base", "Int")],
            CuteType::Named("Int".into()),
        ),
    ];
    let out = emit_methods(String::new(), &methods, &Dict::new());
    assert!(
        out.contains("  fn toInt !Int @lifted_bool_ok\n"),
        "missing nullary lifted:\n{out}"
    );
    assert!(
        out.contains("  fn toInt(base: Int) !Int @lifted_bool_ok\n"),
        "missing arity-1 lifted:\n{out}"
    );
    // No raw `fn toInt Int` should be present in this snippet
    // since the input only had lifted entries.
    assert!(
        !out.contains("  fn toInt Int\n"),
        "lifted-only emit should not produce a raw entry:\n{out}"
    );
}

// ---- type systems ----

fn dict(pairs: &[(&str, &str)]) -> Dict<String> {
    let mut d: Dict<String> = Dict::new();
    for (k, v) in pairs {
        d = d.insert(k.to_string(), v.to_string());
    }
    d
}

fn spec(name: &str, kind: ClassKind) -> ClassSpec {
    ClassSpec {
        name: name.to_string(),
        kind,
        super_name: None,
        header: "h.h".to_string(),
        include_only: None,
        exclude: vec![],
        include_statics: false,
        params: Dict::new(),
        comment: None,
        flags_of: None,
        cpp_namespace: None,
    }
}

fn system(vars: &[(&str, &str)], classes: Vec<ClassSpec>) -> TypeSystem {
    TypeSystem {
        vars: dict(vars),
        clang: ClangConfig { includes: vec![], frameworks: vec![], std: None },
        type_map: Dict::new(),
        classes,
    }
}

#[test]
fn references_are_replaced() {
    let vars = dict(&[("qt", "/usr/qt"), ("empty", "")]);
    assert_eq!(substitute("${qt}/core/${empty}x", &vars), Ok("/usr/qt/core/x".to_string()));
    assert_eq!(substitute("no $ {ref}", &vars), Ok("no $ {ref}".to_string()));
    assert_eq!(substitute("/é/${qt}/日本", &vars), Ok("/é//usr/qt/日本".to_string()));
    assert_eq!(
        substitute("${nope}", &vars),
        Err("unknown var `nope` (define under [vars] or set CUTE_QPI_NOPE=)".to_string())
    );
    assert_eq!(
        substitute("a${qt", &vars),
        Err("unterminated `${` in \"a${qt\"".to_string())
    );
}

#[test]
fn system_vars_resolve_in_layers() {
    let mut ts = system(
        &[("qt_core", "/mine/core"), ("base", "/b"), ("nested", "${base}/n")],
        vec![spec("QPoint", ClassKind::Value)],
    );
    ts.clang.includes = vec!["${nested}".to_string(), "${qt_gui}".to_string()];
    ts.clang.frameworks = vec!["${qt_frameworks}".to_string()];
    ts.classes[0].header = "${qt_core}/qpoint.h".to_string();
    let env = dict(&[("CUTE_QPI_BASE", "/env")]);
    let r = ts.expand_templates(HostOs::Linux, &env).expect("expands");
    // The environment comes before the file, the file before the defaults.
    assert_eq!(r.clang.includes, vec!["/env/n", "/usr/include/qt6/QtGui"]);
    assert_eq!(r.clang.frameworks, vec!["/usr/include/qt6"]);
    assert_eq!(r.classes[0].header, "/mine/core/qpoint.h");
    assert_eq!(r.vars.get("nested").map(|s| s.as_str()), Some("/env/n"));
}

#[test]
fn platform_defaults() {
    let on = |os: HostOs| {
        let mut ts = system(&[], vec![]);
        ts.clang.includes = vec!["${qt_svg_widgets}".to_string()];
        ts.expand_templates(os, &Dict::new())
    };
    assert_eq!(
        on(HostOs::MacOs).unwrap().clang.includes,
        vec!["/opt/homebrew/lib/QtSvgWidgets.framework/Headers"]
    );
    assert_eq!(on(HostOs::Linux).unwrap().clang.includes, vec!["/usr/include/qt6/QtSvgWidgets"]);
    assert!(on(HostOs::Other).is_err());
}

#[test]
fn a_variable_that_refers_to_itself_is_an_error() {
    let ts = system(&[("a", "${a}")], vec![]);
    match ts.expand_templates(HostOs::Other, &Dict::new()) {
        Err(e) => assert_eq!(e, "var `a` does not resolve: \"${a}\""),
        Ok(_) => panic!("expected an error"),
    }
    let ring = system(&[("a", "${b}"), ("b", "${a}")], vec![]);
    assert!(ring.expand_templates(HostOs::Other, &Dict::new()).is_err());
}

#[test]
fn unknown_variables_in_paths_are_errors() {
    let mut ts = system(&[], vec![spec("A", ClassKind::Value)]);
    ts.classes[0].header = "${gone}/a.h".to_string();
    match ts.expand_templates(HostOs::Other, &Dict::new()) {
        Err(e) => assert!(e.contains("unknown var `gone`"), "{e}"),
        Ok(_) => panic!("expected an error"),
    }
}

#[test]
fn paths_are_substituted_once() {
    let mut joined = system(&[("d", "$"), ("r", "{x}"), ("v", "{b}")], vec![]);
    joined.clang.includes = vec!["${d}${r}".to_string(), "/a/$${v}".to_string()];
    joined.clang.frameworks = vec!["/f${r}$".to_string()];
    let ts = joined.expand_templates(HostOs::Other, &Dict::new()).unwrap();
    assert_eq!(ts.clang.includes, vec!["${x}", "/a/${b}"]);
    assert_eq!(ts.clang.frameworks, vec!["/f{x}$"]);
    let vars = Dict::new().insert("v".to_string(), "{b}".to_string());
    assert_eq!(substitute_path("/a/$${v}", &vars), Ok("/a/${b}".to_string()));
    assert_eq!(substitute_path("/a/${v}", &vars), Ok("/a/{b}".to_string()));
    assert!(substitute_path("/a/${w}", &vars).is_err());
    assert!(substitute_path("/a/${v", &vars).is_err());
}

// ---- types ----

fn cpp(display: &str) -> CppType {
    CppType {
        layer: TypeLayer::Plain,
        is_const: false,
        display: display.to_string(),
        canonical: display.to_string(),
        is_enum: false,
        pointee: None,
    }
}

fn pointer(t: CppType) -> CppType {
    CppType {
        layer: TypeLayer::Pointer,
        is_const: false,
        display: format!("{} *", t.display),
        canonical: format!("{} *", t.canonical),
        is_enum: false,
        pointee: Some(Box::new(t)),
    }
}

fn reference(t: CppType, is_const: bool) -> CppType {
    CppType {
        layer: TypeLayer::LValueReference,
        is_const,
        display: format!("{} &", t.display),
        canonical: format!("{} &", t.canonical),
        is_enum: false,
        pointee: Some(Box::new(t)),
    }
}

fn read_only(mut t: CppType) -> CppType {
    t.is_const = true;
    t
}

fn name_of(t: Option<CuteType>) -> Option<String> {
    t.map(|t| match t {
        CuteType::Named(n) => n,
        CuteType::Void => "void".to_string(),
    })
}

#[test]
fn types_are_mapped() {
    assert_eq!(strip_const("const QString &"), "QString");
    let mut enums = spec("Mode", ClassKind::Enum);
    enums.cpp_namespace = Some("Qt".to_string());
    let mut ts = system(&[], vec![enums, spec("QThing", ClassKind::Object)]);
    ts.type_map = dict(&[("int", "Number")]);
    let map = build_type_map(&ts);
    let m = |t: &CppType| name_of(map_type(t, &map));
    assert_eq!(m(&cpp("double")).as_deref(), Some("Float"));
    assert_eq!(m(&reference(cpp("const QString"), true)).as_deref(), Some("String"));
    assert_eq!(m(&pointer(cpp("QThing"))).as_deref(), Some("QThing"));
    assert_eq!(m(&cpp("Qt::Mode")).as_deref(), Some("Mode"));
    assert_eq!(m(&cpp("int")).as_deref(), Some("Number"), "the type system wins");
    assert_eq!(m(&cpp("void")).as_deref(), Some("void"));
    assert_eq!(m(&cpp("std::chrono::milliseconds")), None);
    assert_eq!(m(&cpp("Unknown")), None);
    let mut flags = cpp("Qt::Alignment");
    flags.canonical = "QFlags<Qt::AlignmentFlag>".to_string();
    assert_eq!(m(&flags).as_deref(), Some("AlignmentFlag"));
    flags.canonical = "QFlags<Other::Thing>".to_string();
    assert_eq!(m(&flags).as_deref(), Some("Int"));
    let mut e = cpp("Other::Thing");
    e.is_enum = true;
    assert_eq!(m(&e).as_deref(), Some("Int"));
    let mut broken = pointer(cpp("int"));
    broken.pointee = None;
    assert_eq!(m(&broken), None);
}

// ---- methods ----

fn method(name: &str, result: CppType, params: Vec<CppParam>) -> CppMember {
    CppMember {
        access: Some(Access::Public),
        is_method: true,
        name: Some(name.to_string()),
        is_static: false,
        line: Some(1),
        result: Some(result),
        params,
    }
}

fn arg(name: &str, ty: CppType, has_default: bool) -> CppParam {
    CppParam { name: Some(name.to_string()), ty: Some(ty), has_default }
}

fn body(members: Vec<CppMember>) -> CppClass {
    CppClass { is_class: true, members, bases: vec![], tokens: None }
}

fn signatures(v: &[Method]) -> Vec<String> {
    v.iter().map(method_signature).collect()
}

fn types() -> Dict<String> {
    build_type_map(&system(&[], vec![]))
}

#[test]
fn methods_are_filtered() {
    let mut hidden = method("hidden", cpp("int"), vec![]);
    hidden.access = Some(Access::Private);
    let mut still_hidden = method("stillHidden", cpp("int"), vec![]);
    still_hidden.access = None;
    let mut fixed = method("make", cpp("int"), vec![]);
    fixed.is_static = true;
    let c = body(vec![
        method("operator==", cpp("bool"), vec![]),
        method("qt_metacall", cpp("int"), vec![]),
        fixed,
        method("ref", reference(cpp("int"), false), vec![]),
        method("text", reference(read_only(cpp("const QString")), false), vec![]),
        method("odd", cpp("Mystery"), vec![]),
        method("bad", cpp("void"), vec![arg("m", cpp("Mystery"), false)]),
        method("x", cpp("int"), vec![]),
        hidden,
        still_hidden,
    ]);
    let mut s = spec("C", ClassKind::Value);
    let (m, sig) = collect_public_methods(&c, &s, &types(), &vec![]);
    assert_eq!(signatures(&m), vec!["text()", "x()"]);
    assert_eq!(name_of(Some(m[0].return_ty.clone())).as_deref(), Some("String"));
    assert!(sig.is_empty());
    s.include_statics = true;
    let (m, _) = collect_public_methods(&c, &s, &types(), &vec![]);
    assert_eq!(signatures(&m), vec!["make()", "text()", "x()"]);
    s.exclude = vec!["x".to_string(), "text".to_string()];
    let (m, _) = collect_public_methods(&c, &s, &types(), &vec![]);
    assert_eq!(signatures(&m), vec!["make()"]);
}

#[test]
fn a_list_orders_and_limits_methods_but_not_signals() {
    let mut changed = method("changed", cpp("void"), vec![arg("_", cpp("QPrivateSignal"), false)]);
    changed.line = Some(9);
    let c = body(vec![
        changed,
        method("a", cpp("int"), vec![]),
        method("b", cpp("int"), vec![]),
        method("c", cpp("int"), vec![]),
    ]);
    let mut s = spec("C", ClassKind::Object);
    s.include_only = Some(vec!["c".to_string(), "a".to_string()]);
    let (m, sig) = collect_public_methods(&c, &s, &types(), &vec![9]);
    assert_eq!(signatures(&m), vec!["c()", "a()"]);
    assert_eq!(signatures(&sig), vec!["changed()"]);
    s.include_only = Some(vec![]);
    let (m, sig) = collect_public_methods(&c, &s, &types(), &vec![9]);
    assert!(m.is_empty());
    assert_eq!(sig.len(), 1);
}

#[test]
fn default_arguments_give_overloads() {
    let c = body(vec![
        method(
            "f",
            cpp("void"),
            vec![arg("a", cpp("int"), false), arg("b", cpp("bool"), true), arg("c", cpp("int"), true)],
        ),
        method("host", cpp("QString"), vec![arg("o", cpp("Options"), true)]),
        method("f", cpp("int"), vec![arg("z", cpp("long"), false)]),
    ]);
    let (m, _) = collect_public_methods(&c, &spec("C", ClassKind::Value), &types(), &vec![]);
    assert_eq!(
        signatures(&m),
        vec!["f(Int)", "f(Int,Bool)", "f(Int,Bool,Int)", "host()"],
        "what looks the same is bound once"
    );
}

#[test]
fn a_success_flag_is_lifted() {
    let ok = arg("ok", pointer(cpp("bool")), true);
    let c = body(vec![
        method("toInt", cpp("int"), vec![ok, arg("base", cpp("int"), true)]),
        method("check", cpp("void"), vec![arg("ok", pointer(cpp("bool")), true)]),
    ]);
    let (m, _) = collect_public_methods(&c, &spec("QString", ClassKind::Value), &types(), &vec![]);
    assert_eq!(signatures(&m), vec!["toInt()!", "toInt(Int)!", "check()", "check(Bool)"]);
    assert_eq!(m[1].params[0].name, "base");
}

// ---- classes ----

fn decl(kind: DeclKind, name: &str, children: Vec<Decl>) -> Decl {
    Decl {
        kind,
        name: Some(name.to_string()),
        is_definition: true,
        alias: None,
        constants: vec![],
        class: None,
        children,
    }
}

fn tokens(text: &str) -> Vec<Token> {
    let mut out = vec![];
    for (k, line) in text.lines().enumerate() {
        for w in line.split_whitespace() {
            let kind = match w {
                "public" | "private" | "protected" => TokenKind::Keyword,
                _ if w.chars().next().map_or(false, |c| c.is_alphabetic()) => TokenKind::Identifier,
                _ => TokenKind::Other,
            };
            out.push(Token { kind, spelling: w.to_string(), line: k as u32 + 1 });
        }
    }
    out
}

/// A constant whose source is cut where letters, digits, spaces and signs meet.
fn constant(name: &str, source: &str) -> EnumConstant {
    let kind = |c: char| if c.is_alphanumeric() { 0 } else if c.is_whitespace() { 1 } else { 2 };
    let mut tokens: Vec<SourceToken> = vec![];
    let (mut gap, mut word) = (String::new(), String::new());
    for c in source.chars() {
        let split = word.chars().last().map_or(false, |w| kind(w) != kind(c) || kind(c) == 2);
        if split {
            tokens.push(SourceToken { gap: gap.clone(), spelling: word.clone() });
            gap.clear();
            word.clear();
        }
        if kind(c) == 1 {
            gap.push(c);
        } else {
            word.push(c);
        }
    }
    if !word.is_empty() {
        tokens.push(SourceToken { gap, spelling: word });
    }
    EnumConstant { name: Some(name.to_string()), tokens: Some(tokens) }
}

#[test]
fn values_are_taken_as_written() {
    let value = |source: &str| enum_constant_value_text(&constant("A", source));
    assert_eq!(value("A"), None);
    assert_eq!(value("A ="), None);
    assert_eq!(value("A=-1").as_deref(), Some("-1"));
    assert_eq!(value("A = 0x0001").as_deref(), Some("0x0001"));
    assert_eq!(value("A = 1<<2").as_deref(), Some("1<<2"));
    assert_eq!(value("A = B |\n    C").as_deref(), Some("B | C"), "a line break is a space");
    assert_eq!(
        enum_constant_value_text(&EnumConstant { name: None, tokens: None }),
        None
    );
}

fn slider() -> Vec<Decl> {
    let mut changed = method("valueChanged", cpp("void"), vec![arg("value", cpp("int"), false)]);
    changed.line = Some(6);
    let mut set = method("setValue", cpp("void"), vec![arg("v", cpp("int"), false)]);
    set.line = Some(4);
    let mut ticks = decl(DeclKind::Enum, "Ticks", vec![]);
    ticks.constants = vec![
        constant("No", "No"),
        constant("Both", "Both = 1 | 2"),
        constant("Left", "Left = 0x1"),
        constant("Off", "Off=-1"),
    ];
    let mut c = decl(DeclKind::Class, "QMySlider", vec![ticks]);
    c.class = Some(CppClass {
        is_class: true,
        members: vec![set, changed],
        bases: vec![None, Some("Qt::QWidget".to_string())],
        tokens: Some(tokens(
            "class QMySlider : public Qt::QWidget {\n\
             Q_PROPERTY ( int value READ value WRITE setValue NOTIFY valueChanged )\n\
             Q_PROPERTY ( Ticks ticks READ ticks )  Q_PROPERTY ( Odd odd READ odd )\n\
             public : void setValue ( int v ) ;\n\
             Q_SIGNALS :\n\
             void valueChanged ( int value ) ;\n\
             private : int x ; }",
        )),
    });
    let mut fwd = decl(DeclKind::Class, "QMySlider", vec![]);
    fwd.is_definition = false;
    let mut alias = decl(DeclKind::Alias, "Alignment", vec![]);
    alias.alias =
        Some(AliasTarget { canonical: "QFlags<Qt::A>".to_string(), is_enum: false });
    vec![decl(DeclKind::Namespace, "Qt", vec![fwd, c, alias])]
}

#[test]
fn an_object_class_is_collected() {
    let ts = system(&[], vec![spec("QMySlider", ClassKind::Object)]);
    let v = collect(ts, &vec![Ok(slider())]).expect("collects");
    let c = &v[0];
    assert_eq!(signatures(&c.methods), vec!["setValue(Int)"]);
    assert_eq!(signatures(&c.signals), vec!["valueChanged(Int)"]);
    assert_eq!(c.detected_super.as_deref(), Some("QWidget"));
    let props: Vec<(String, Option<String>)> =
        c.properties.iter().map(|p| (p.name.clone(), name_of(Some(p.ty.clone())))).collect();
    assert_eq!(
        props,
        vec![
            ("value".to_string(), Some("Int".to_string())),
            ("ticks".to_string(), Some("Int".to_string())),
        ]
    );
    assert_eq!(
        emit(Some("Sliders\nof Qt"), &v),
        "# Sliders\n# of Qt\n\nclass QMySlider < QWidget {\n  prop value : Int\n  prop ticks : Int\n\n  \
         signal valueChanged(value: Int)\n\n  fn setValue(v: Int)\n}\n"
    );
}

#[test]
fn an_open_property_is_passed_over() {
    let v = scan_properties(
        &tokens("Q_PROPERTY ( int broken READ ( Q_PROPERTY ( int whole READ whole ) int rest ;"),
        &types(),
        &vec![],
    );
    let names: Vec<&str> = v.iter().map(|p| p.name.as_str()).collect();
    assert_eq!(names, ["whole"]);
}

#[test]
fn enums_are_known_behind_two_scopes() {
    let mode = decl(DeclKind::Enum, "Mode", vec![]);
    let inner = decl(DeclKind::Class, "Inner", vec![mode]);
    let outer = decl(DeclKind::Class, "Outer", vec![inner]);
    let root = vec![decl(DeclKind::Namespace, "Ns", vec![outer]), decl(DeclKind::Enum, "Top", vec![])];
    assert_eq!(
        collect_enum_names(&root, &None, &None, vec![]),
        vec!["Mode", "Inner::Mode", "Outer::Inner::Mode", "Top"]
    );
}

#[test]
fn an_enum_is_collected() {
    let mut s = spec("Ticks", ClassKind::Enum);
    s.cpp_namespace = Some("QMySlider".to_string());
    let v = collect(system(&[], vec![s]), &vec![Ok(slider())]).expect("collects");
    let got: Vec<(&str, Option<&str>)> =
        v[0].enum_variants.iter().map(|e| (e.name.as_str(), e.value_text.as_deref())).collect();
    assert_eq!(got, vec![("No", None), ("Both", Some("1 | 2")), ("Left", Some("0x1")), ("Off", Some("-1"))]);
    assert_eq!(
        emit(None, &v),
        "extern enum QMySlider::Ticks {\n  No\n  # skipped Both: value uses bitwise op (`1 | 2`) — \
         Cute lacks these operators\n  Left = 0x1\n  Off = -1\n}\n"
    );
}

#[test]
fn what_is_missing_is_an_error() {
    let e = collect(system(&[], vec![spec("Nope", ClassKind::Value)]), &vec![Ok(slider())]);
    assert_eq!(e.err().as_deref(), Some("class `Nope` not found in h.h"));
    let e = collect(system(&[], vec![spec("Nope", ClassKind::Enum)]), &vec![Ok(slider())]);
    assert_eq!(e.err().as_deref(), Some("enum `Nope` not found in h.h"));
    let e = collect(
        system(&[], vec![spec("Nope", ClassKind::Value)]),
        &vec![Err("no file".to_string())],
    );
    assert_eq!(e.err().as_deref(), Some("clang parse failed for h.h: no file"));
}

#[test]
fn one_class_can_be_probed() {
    let v = collect_one_off(
        "q.h".to_string(),
        "QMySlider".to_string(),
        vec![],
        "c++20".to_string(),
        ClassKind::Value,
        None,
        Ok(slider()),
    )
    .expect("collects");
    assert_eq!(v.len(), 1);
    assert_eq!(v[0].spec.header, "q.h");
    assert!(v[0].properties.is_empty() && v[0].signals.is_empty());
    assert_eq!(signatures(&v[0].methods), vec!["setValue(Int)", "valueChanged(Int)"]);
}

#[test]
fn parameter_names_can_be_set() {
    let mut s = spec("QRect", ClassKind::Value);
    s.params = s
        .params
        .insert("moveTo".to_string(), vec!["x".to_string()])
        .insert("moveTo(QPoint)".to_string(), vec!["p".to_string()]);
    s.comment = Some("A rectangle.".to_string());
    let m = |params: Vec<Param>| Method {
        name: "moveTo".to_string(),
        params,
        return_ty: CuteType::Void,
        lifted_bool_ok: false,
    };
    let c = CollectedClass {
        spec: s,
        methods: vec![m(vec![p("_", "QPoint")]), m(vec![p("_", "Int"), p("b", "Int")]), m(vec![])],
        signals: vec![],
        properties: vec![],
        detected_super: None,
        enum_variants: vec![],
    };
    let mut flags = spec("Alignment", ClassKind::Flags);
    flags.flags_of = Some("AlignmentFlag".to_string());
    flags.cpp_namespace = Some("Qt".to_string());
    let empty = |spec: ClassSpec| CollectedClass {
        spec,
        methods: vec![],
        signals: vec![],
        properties: vec![Property {
            name: "w".to_string(),
            ty: CuteType::Named("Int".to_string()),
        }],
        detected_super: None,
        enum_variants: vec![EnumVariantInfo { name: "A".to_string(), value_text: None }],
    };
    let v = vec![
        c,
        empty(flags),
        empty(spec("Bare", ClassKind::Flags)),
        empty(spec("QReq", ClassKind::Object)),
    ];
    assert_eq!(
        emit(None, &v),
        "# A rectangle.\nextern value QRect {\n  fn moveTo(p: QPoint)\n  fn moveTo(x: Int, b: Int)\n  \
         fn moveTo\n}\n\nextern flags Qt::Alignment of AlignmentFlag\n\nextern flags Bare of UNKNOWN\n\n\
         class QReq {\n  prop w : Int\n}\n"
    );
}

#[test]
fn binding_files_are_joined() {
    let class = |name: &str, kind: ClassKind, comment: Option<&str>| {
        let mut s = spec(name, kind);
        s.comment = comment.map(|c| c.to_string());
        CollectedClass {
            spec: s,
            methods: vec![],
            signals: vec![],
            properties: vec![],
            detected_super: None,
            enum_variants: vec![],
        }
    };
    let first = || vec![class("A", ClassKind::Value, None), class("B", ClassKind::Enum, None)];
    let second = || vec![class("C", ClassKind::Object, Some("one\ntwo"))];
    let mut both = first();
    both.extend(second());
    assert_eq!(emit(None, &vec![]), "");
    assert_eq!(emit(Some("A\nB"), &vec![]), "# A\n# B\n\n");
    assert_eq!(
        emit(None, &both),
        "extern value A {\n}\n\nextern enum B {\n}\n\n# one\n# two\nclass C {\n}\n"
    );
    assert_eq!(emit(None, &both), emit(None, &first()) + "\n" + &emit(None, &second()));
    assert_eq!(emit(Some("h"), &both), emit(Some("h"), &vec![]) + &emit(None, &both));
}

// ---- the parser ----

#[test]
fn the_parser_is_called_with_paths() {
    let mut cfg = ClangConfig { includes: vec!["/i".to_string()], frameworks: vec![], std: None };
    assert_eq!(
        clang_args(&cfg, &Some("/f".to_string())),
        vec!["-std=c++17", "-x", "c++", "-isystem", "/i", "-F", "/f"]
    );
    cfg.frameworks = vec!["/own".to_string()];
    cfg.std = Some("c++20".to_string());
    assert_eq!(
        clang_args(&cfg, &Some("/f".to_string())),
        vec!["-std=c++20", "-x", "c++", "-isystem", "/i", "-F", "/own"]
    );
}

#[test]
fn frameworks_are_found_above_a_header() {
    let l = |path: &str, names: Option<Vec<&str>>| Listing {
        path: path.to_string(),
        names: names.map(|v| v.into_iter().map(|s| s.to_string()).collect()),
    };
    let above = vec![
        l("/opt/lib/QtCore.framework", Some(vec!["Headers", ".framework"])),
        l("/opt/none", None),
        l("/opt/lib", Some(vec!["libx.a", "QtCore.framework"])),
        l("/opt", Some(vec!["Z.framework"])),
    ];
    assert_eq!(walk_up_to_frameworks(&above).as_deref(), Some("/opt/lib"));
    assert_eq!(walk_up_to_frameworks(&vec![]), None);
}

#[test]
fn kinds_and_requests() {
    assert_eq!(parse_kind("flags"), Ok(ClassKind::Flags));
    assert_eq!(
        parse_kind("x"),
        Err("--kind: expected `value` / `object` / `enum` / `flags`, got `x`".to_string())
    );
    let s = |x: &str| Some(x.to_string());
    assert!(matches!(plan_run(s("t.toml"), s("h"), s("C"), "x"), Ok(Request::System(t)) if t == "t.toml"));
    assert!(matches!(
        plan_run(None, s("h"), s("C"), "enum"),
        Ok(Request::Class { kind: ClassKind::Enum, .. })
    ));
    assert_eq!(
        plan_run(None, s("h"), None, "enum").err().as_deref(),
        Some("either --typesystem PATH or (--header PATH --class NAME) is required")
    );
}
