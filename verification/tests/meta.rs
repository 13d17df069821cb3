use cute::meta::{
    emit_meta_section, ClassInfo, MethodInfo, ParamInfo, PropInfo, PropKind, SignalInfo,
};

fn sample_class() -> ClassInfo {
    ClassInfo {
        name: "TodoItem".into(),
        super_class: "QObject".into(),
        properties: vec![
            PropInfo {
                name: "text".into(),
                setter: "setText".into(),
                cpp_type: "::cute::String".into(),
                qmetatype: "QMetaType::QString",
                pass_by_const_ref: true,
                readable: true,
                writable: true,
                notify_signal_idx: None,
                notify_signal_name: None,
                kind: PropKind::Plain,
                bindable_getter: None,
                is_model_list: false,
            },
            PropInfo {
                name: "done".into(),
                setter: "setDone".into(),
                cpp_type: "bool".into(),
                qmetatype: "QMetaType::Bool",
                pass_by_const_ref: false,
                readable: true,
                writable: true,
                notify_signal_idx: Some(0),
                notify_signal_name: Some("stateChanged".into()),
                kind: PropKind::Plain,
                bindable_getter: None,
                is_model_list: false,
            },
        ],
        signals: vec![SignalInfo {
            name: "stateChanged".into(),
            params: vec![],
        }],
        methods: vec![MethodInfo {
            name: "toggle".into(),
            params: vec![],
            return_type: "void".into(),
            is_static: false,
        }],
        slots: vec![],
    }
}

#[test]
fn meta_section_uses_qt6_template_form() {
    let m = emit_meta_section(&sample_class());
    let c = &m.source_defs;
    assert!(c.contains("struct qt_meta_tag_TodoItem_t"), "{c}");
    assert!(
        c.contains("template <> constexpr inline auto TodoItem::qt_create_metaobjectdata<qt_meta_tag_TodoItem_t>()"),
        "{c}"
    );
    assert!(c.contains("QtMocHelpers::StringRefStorage"), "{c}");
    assert!(c.contains("QtMocHelpers::SignalData<void()>"), "{c}");
    assert!(c.contains("QtMocHelpers::MethodData<void()>"), "{c}");
    assert!(c.contains("QtMocHelpers::PropertyData<QString>"), "{c}");
    assert!(c.contains("QtMocHelpers::PropertyData<bool>"), "{c}");
    assert!(
        c.contains("QMC::DefaultPropertyFlags | QMC::Writable | QMC::StdCppSet"),
        "{c}"
    );
    assert!(
        c.contains("Q_CONSTINIT const QMetaObject TodoItem::staticMetaObject"),
        "{c}"
    );
    assert!(
        c.contains("qt_staticMetaObjectStaticContent<qt_meta_tag_TodoItem_t>"),
        "{c}"
    );
    assert!(c.contains("void TodoItem::stateChanged()"), "{c}");
    assert!(
        c.contains("QMetaObject::activate(this, &staticMetaObject, 0, nullptr);"),
        "{c}"
    );
}

#[test]
fn property_notify_emits_index_argument() {
    let m = emit_meta_section(&sample_class());
    let c = &m.source_defs;
    // Property `done` has notify_signal_idx 0 -> last arg in PropertyData<bool>(...) is `0`.
    let line = c
        .lines()
        .find(|l| l.contains("PropertyData<bool>"))
        .expect("done property line");
    assert!(
        line.trim_end().ends_with("0),"),
        "expected trailing notify-id arg, got: {line}"
    );
    // Property `text` has no notify -> no trailing arg.
    let line = c
        .lines()
        .find(|l| l.contains("PropertyData<QString>"))
        .expect("text property line");
    assert!(
        line.trim_end().ends_with("StdCppSet),"),
        "expected no trailing notify-id arg, got: {line}"
    );
}

#[test]
fn header_decls_is_empty_in_qt6_template_form() {
    // Q_OBJECT declares everything, so the class body gets nothing.
    let m = emit_meta_section(&sample_class());
    assert!(
        m.header_decls.is_empty(),
        "expected empty, got: {:?}",
        m.header_decls
    );
}

#[test]
fn static_methods_have_no_meta_entry() {
    let mut c = sample_class();
    c.methods.push(MethodInfo {
        name: "make".into(),
        params: vec![],
        return_type: "void".into(),
        is_static: true,
    });
    let with = emit_meta_section(&c).source_defs;
    let without = emit_meta_section(&sample_class()).source_defs;
    assert_eq!(with, without);
}

#[test]
fn bindable_properties_have_a_bindable_case() {
    let mut c = sample_class();
    c.properties[0].kind = PropKind::Bindable;
    c.properties[0].bindable_getter = Some("bindableText".into());
    assert!(c.properties[0].has_bindable_surface());
    assert!(!c.properties[1].has_bindable_surface());
    let s = emit_meta_section(&c).source_defs;
    assert!(s.contains("bindableText()"), "{s}");
}

#[test]
fn signal_parameters_are_passed_on() {
    let mut c = sample_class();
    c.signals.push(SignalInfo {
        name: "moved".into(),
        params: vec![
            ParamInfo {
                name: "x".into(),
                cpp_type: "qint64".into(),
                qmetatype: "QMetaType::LongLong".into(),
            },
            ParamInfo {
                name: "label".into(),
                cpp_type: "::cute::String".into(),
                qmetatype: "QMetaType::QString".into(),
            },
        ],
    });
    let s = emit_meta_section(&c).source_defs;
    assert!(s.contains("QMetaObject::activate(this, &staticMetaObject, 1, _a);"), "{s}");
}

#[test]
fn the_whole_section_of_a_class() {
    let param = |name: &str, cpp_type: &str, qmetatype: &str| ParamInfo {
        name: name.into(),
        cpp_type: cpp_type.into(),
        qmetatype: qmetatype.into(),
    };
    let x = || param("x", "qint64", "QMetaType::LongLong");
    let method = |name: &str, return_type: &str, params: Vec<ParamInfo>| MethodInfo {
        name: name.into(),
        params,
        return_type: return_type.into(),
        is_static: false,
    };
    let mut c = sample_class();
    c.properties[0].kind = PropKind::Bindable;
    c.properties[0].bindable_getter = Some("bindableText".into());
    c.properties[1].writable = false;
    c.signals.push(SignalInfo {
        name: "moved".into(),
        params: vec![x(), param("label", "::cute::String", "QMetaType::QString")],
    });
    c.methods.push(method("find", "Doc*", vec![x()]));
    c.slots.push(method("text", "bool", vec![]));
    let expected = r#"namespace {
struct qt_meta_tag_TodoItem_t {};
}  // namespace

template <> constexpr inline auto TodoItem::qt_create_metaobjectdata<qt_meta_tag_TodoItem_t>()
{
    namespace QMC = QtMocConstants;
    QtMocHelpers::StringRefStorage qt_stringData {
        "TodoItem",
        "stateChanged",
        "moved",
        "",
        "toggle",
        "find",
        "text",
        "done",
    };

    QtMocHelpers::UintData qt_methods {
        // signal 0: stateChanged
        QtMocHelpers::SignalData<void()>(1, 3, QMC::AccessPublic, QMetaType::Void),
        // signal 1: moved
        QtMocHelpers::SignalData<void(qint64, ::cute::String)>(2, 3, QMC::AccessPublic, QMetaType::Void, {{{QMetaType::LongLong, 3}, {QMetaType::QString, 3}}}),
        // method 2: toggle
        QtMocHelpers::MethodData<void()>(4, 3, QMC::AccessPublic, QMetaType::Void),
        // method 3: find
        QtMocHelpers::MethodData<Doc*(qint64)>(5, 3, QMC::AccessPublic, QMetaType::Void /* TODO ret-meta for Doc* */, {{{QMetaType::LongLong, 3}}}),
        // slot 4: text
        QtMocHelpers::MethodData<bool()>(6, 3, QMC::AccessPublic, QMetaType::Bool),
    };
    QtMocHelpers::UintData qt_properties {
        // property 0: text
        QtMocHelpers::PropertyData<QString>(6, QMetaType::QString, QMC::DefaultPropertyFlags | QMC::Writable | QMC::StdCppSet | QMC::Bindable),
        // property 1: done
        QtMocHelpers::PropertyData<bool>(7, QMetaType::Bool, QMC::DefaultPropertyFlags | QMC::StdCppSet, 0),
    };
    QtMocHelpers::UintData qt_enums {};

    return QtMocHelpers::metaObjectData<TodoItem, qt_meta_tag_TodoItem_t>(QMC::MetaObjectFlag{}, qt_stringData, qt_methods, qt_properties, qt_enums);
}

Q_CONSTINIT const QMetaObject TodoItem::staticMetaObject = { {
    QMetaObject::SuperData::link<QObject::staticMetaObject>(),
    TodoItem::qt_staticMetaObjectStaticContent<qt_meta_tag_TodoItem_t>.stringdata,
    TodoItem::qt_staticMetaObjectStaticContent<qt_meta_tag_TodoItem_t>.data,
    qt_static_metacall,
    nullptr,
    TodoItem::qt_staticMetaObjectRelocatingContent<qt_meta_tag_TodoItem_t>.metaTypes,
    nullptr
} };

const QMetaObject* TodoItem::metaObject() const
{
    return QObject::d_ptr->metaObject ? QObject::d_ptr->dynamicMetaObject() : &staticMetaObject;
}

void* TodoItem::qt_metacast(const char* clname)
{
    if (!clname) return nullptr;
    if (!std::strcmp(clname, TodoItem::qt_staticMetaObjectStaticContent<qt_meta_tag_TodoItem_t>.strings))
        return static_cast<void*>(this);
    return QObject::qt_metacast(clname);
}

int TodoItem::qt_metacall(QMetaObject::Call _c, int _id, void** _a)
{
    _id = QObject::qt_metacall(_c, _id, _a);
    if (_id < 0) return _id;
    if (_c == QMetaObject::InvokeMetaMethod) {
        if (_id < 5)
            qt_static_metacall(this, _c, _id, _a);
        _id -= 5;
    }
    if (_c == QMetaObject::RegisterMethodArgumentMetaType) {
        if (_id < 5)
            *reinterpret_cast<QMetaType*>(_a[0]) = QMetaType();
        _id -= 5;
    }
    if (_c == QMetaObject::ReadProperty || _c == QMetaObject::WriteProperty
            || _c == QMetaObject::ResetProperty || _c == QMetaObject::BindableProperty
            || _c == QMetaObject::RegisterPropertyMetaType) {
        qt_static_metacall(this, _c, _id, _a);
        _id -= 2;
    }
    return _id;
}

void TodoItem::qt_static_metacall(QObject* _o, QMetaObject::Call _c, int _id, void** _a)
{
    (void)_a;
    auto* _t = static_cast<TodoItem*>(_o);
    if (_c == QMetaObject::InvokeMetaMethod) {
        switch (_id) {
        case 0: { _t->stateChanged(); break; }
        case 1: { auto& a0 = *reinterpret_cast<qint64*>(_a[1]); auto& a1 = *reinterpret_cast<QString*>(_a[2]); _t->moved(a0, a1); break; }
        case 2: { _t->toggle(); break; }
        case 3: { auto& a0 = *reinterpret_cast<qint64*>(_a[1]); _t->find(a0); break; }
        case 4: { _t->text(); break; }
        default: break;
        }
    }
    if (_c == QMetaObject::IndexOfMethod) {
        if (QtMocHelpers::indexOfMethod<void (TodoItem::*)()>(_a, &TodoItem::stateChanged, 0))
            return;
        if (QtMocHelpers::indexOfMethod<void (TodoItem::*)(qint64, ::cute::String)>(_a, &TodoItem::moved, 1))
            return;
    }
    if (_c == QMetaObject::ReadProperty) {
        void* _v = _a[0];
        switch (_id) {
        case 0: *reinterpret_cast<QString*>(_v) = _t->text(); break;
        case 1: *reinterpret_cast<bool*>(_v) = _t->done(); break;
        default: break;
        }
    }
    if (_c == QMetaObject::WriteProperty) {
        void* _v = _a[0];
        switch (_id) {
        case 0: _t->setText(*reinterpret_cast<QString*>(_v)); break;
        default: break;
        }
    }
    if (_c == QMetaObject::BindableProperty) {
        void* _b = _a[0];
        switch (_id) {
        case 0: *static_cast<QUntypedBindable*>(_b) = _t->bindableText(); break;
        default: break;
        }
    }
}

// SIGNAL 0
void TodoItem::stateChanged()
{
    QMetaObject::activate(this, &staticMetaObject, 0, nullptr);
}

// SIGNAL 1
void TodoItem::moved(qint64 x, ::cute::String label)
{
    void* _a[] = { nullptr, const_cast<void*>(static_cast<const void*>(&x)), const_cast<void*>(static_cast<const void*>(&label)) };
    QMetaObject::activate(this, &staticMetaObject, 1, _a);
}

"#;
    assert_eq!(emit_meta_section(&c).source_defs, expected);
}
