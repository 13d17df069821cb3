use cute::ast::{FileId, Ident, Param, Span, TypeExpr, TypeKind};
use cute::dict::Dict;
use cute::naming::{bindable_getter_name, capitalize_first, compute_method_name, setter_name};
use cute::ty::{
    cute_param_to_cpp, cute_to_cpp, cute_to_qmeta_type_enum, cute_type_to_cpp, is_arc_class_named,
    is_qobject_named, pass_by_const_ref, ItemKind, Prim, ResolvedProgram, Type, TypeCtx,
};

fn span() -> Span {
    Span::new(FileId(0), 0, 0)
}

fn kind(k: TypeKind) -> TypeExpr {
    TypeExpr { kind: k, span: span() }
}

fn id(name: &str) -> Ident {
    Ident { name: name.to_string(), span: span() }
}

fn generic(name: &str, args: Vec<TypeExpr>) -> TypeExpr {
    kind(TypeKind::Named { path: vec![id(name)], args })
}

fn ty(name: &str) -> TypeExpr {
    generic(name, vec![])
}

fn program() -> ResolvedProgram {
    let items: Dict<ItemKind> = Dict::new();
    ResolvedProgram {
        items: items
            .insert(
                "Doc".to_string(),
                ItemKind::Class { is_qobject_derived: true, is_extern_value: false },
            )
            .insert(
                "Box".to_string(),
                ItemKind::Class { is_qobject_derived: false, is_extern_value: false },
            )
            .insert(
                "QPoint".to_string(),
                ItemKind::Class { is_qobject_derived: false, is_extern_value: true },
            )
            .insert("Rec".to_string(), ItemKind::Struct)
            .insert("Quad".to_string(), ItemKind::Struct),
        default_error_type: Some("IoError".to_string()),
    }
}

#[test]
fn named_types() {
    let p = program();
    let ctx = TypeCtx::new(&p);
    let cpp = |t: TypeExpr| cute_to_cpp(&t, &ctx);
    assert_eq!(cpp(ty("Int")), "qint64");
    assert_eq!(cpp(ty("String")), "::cute::String");
    assert_eq!(cpp(ty("List")), "QVariantList");
    assert_eq!(cpp(ty("Map")), "QVariantMap");
    assert_eq!(cpp(ty("Hash")), "QVariantMap");
    assert_eq!(cpp(ty("Set")), "QSet");
    assert_eq!(cpp(generic("Map", vec![ty("String"), ty("Doc")])), "QMap<::cute::String, Doc*>");
    assert_eq!(cpp(ty("Doc")), "Doc*");
    assert_eq!(cpp(ty("Box")), "::cute::Arc<Box>");
    assert_eq!(cpp(generic("Box", vec![ty("Int")])), "::cute::Arc<Box<qint64>>");
    assert_eq!(cpp(ty("QPoint")), "QPoint");
    assert_eq!(cpp(ty("Rec")), "Rec");
    assert_eq!(cpp(generic("Other", vec![ty("Bool")])), "Other<bool>");
    assert_eq!(cpp(kind(TypeKind::SelfType)), "auto /* Self */");
    assert_eq!(cpp(kind(TypeKind::Named { path: vec![], args: vec![] })), "?");
    assert!(is_qobject_named("Doc", &ctx) && !is_qobject_named("Box", &ctx));
    assert!(is_arc_class_named("Box", &ctx) && !is_arc_class_named("QPoint", &ctx));
}

#[test]
fn nullable_and_failing_types() {
    let mut p = program();
    {
        let ctx = TypeCtx::new(&p);
        let cpp = |t: TypeExpr| cute_to_cpp(&t, &ctx);
        let opt = |t: TypeExpr| kind(TypeKind::Nullable(Box::new(t)));
        assert_eq!(cpp(opt(ty("Doc"))), "QPointer<Doc>");
        assert_eq!(cpp(opt(ty("QWidget"))), "QPointer<QWidget>", "classes of Qt by their name");
        assert_eq!(cpp(opt(ty("QPoint"))), "std::optional<QPoint>");
        assert_eq!(cpp(opt(ty("Quad"))), "std::optional<Quad>", "a declared struct is a value");
        assert_eq!(cpp(opt(ty("Int"))), "std::optional<qint64>");
        assert_eq!(cpp(opt(generic("QBox", vec![ty("Int")]))), "QPointer<QBox<qint64>>");
        assert_eq!(
            cpp(kind(TypeKind::ErrorUnion(Box::new(ty("Int"))))),
            "::cute::Result<qint64, IoError>"
        );
    }
    p.default_error_type = None;
    let ctx = TypeCtx::new(&p);
    assert_eq!(
        cute_to_cpp(&kind(TypeKind::ErrorUnion(Box::new(ty("Int")))), &ctx),
        "::cute::Result<qint64, ::cute::String /* unbound error type */>"
    );
}

#[test]
fn closures_are_borrowed_unless_they_escape() {
    let p = program();
    let ctx = TypeCtx::new(&p);
    let f = kind(TypeKind::Fn { params: vec![ty("Int"), ty("Doc")], ret: Box::new(ty("Bool")) });
    assert_eq!(cute_to_cpp(&f, &ctx), "std::function<bool(qint64, Doc*)>");
    let mut param = Param {
        name: id("f"),
        ty: f,
        default: None,
        is_escaping: false,
        is_consuming: false,
        span: span(),
    };
    assert_eq!(cute_param_to_cpp(&param, &ctx), "::cute::function_ref<bool(qint64, Doc*)>");
    param.is_escaping = true;
    assert_eq!(cute_param_to_cpp(&param, &ctx), "std::function<bool(qint64, Doc*)>");
}

#[test]
fn resolved_types() {
    let p = program();
    let ctx = TypeCtx::new(&p);
    let cpp = |t: Type| cute_type_to_cpp(&t, &ctx);
    assert_eq!(cpp(Type::Prim(Prim::Nil)), "std::nullptr_t");
    assert_eq!(cpp(Type::Class("Doc".to_string())), "Doc*");
    assert_eq!(cpp(Type::External("Box".to_string())), "::cute::Arc<Box>");
    assert_eq!(cpp(Type::External("List".to_string())), "QVariantList");
    assert_eq!(cpp(Type::External("Url".to_string())), "QUrl");
    assert_eq!(cpp(Type::Flags("Doc".to_string())), "Doc");
    assert_eq!(
        cpp(Type::Generic { base: "List".to_string(), args: vec![Type::Prim(Prim::Int)] }),
        "QList<qint64>"
    );
    assert_eq!(
        cpp(Type::Nullable(Box::new(Type::Class("Doc".to_string())))),
        "QPointer<Doc>"
    );
    assert_eq!(
        cpp(Type::ErrorUnion { ok: Box::new(Type::Prim(Prim::Bool)), err: "E".to_string() }),
        "::cute::Result<bool, E>"
    );
    assert_eq!(
        cpp(Type::Fn { params: vec![Type::Sym], ret: Box::new(Type::Prim(Prim::Void)) }),
        "std::function<void(QByteArray)>"
    );
    assert_eq!(cpp(Type::SignalRef { params: vec![] }), "void");
    assert_eq!(cpp(Type::Var(3)), "auto");
}

#[test]
fn meta_types() {
    assert_eq!(cute_to_qmeta_type_enum(&ty("Int")), "QMetaType::LongLong");
    assert_eq!(cute_to_qmeta_type_enum(&ty("Doc")), "QMetaType::QObjectStar");
    assert_eq!(cute_to_qmeta_type_enum(&kind(TypeKind::SelfType)), "QMetaType::Void");
    assert!(pass_by_const_ref(&ty("String")));
    assert!(!pass_by_const_ref(&ty("Int")));
}

#[test]
fn accessor_names() {
    assert_eq!(setter_name("text"), "setText");
    assert_eq!(setter_name(""), "set_");
    assert_eq!(setter_name("ßx"), "setSSx");
    assert_eq!(bindable_getter_name("text"), "bindableText");
    assert_eq!(compute_method_name("ratio"), "computeRatio");
    assert_eq!(compute_method_name(""), "compute");
    assert_eq!(capitalize_first("éa"), "Éa");
}
