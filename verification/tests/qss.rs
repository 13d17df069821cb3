use cute::ast::{Expr, ExprKind, Span, StrPart};
use cute::qss::{classify, QssBag, QssClass, QssPseudo};

fn lit_str(s: &str) -> Expr {
    Expr {
        kind: ExprKind::Str(vec![StrPart::Text(s.into())]),
        span: Span::dummy(),
    }
}
fn lit_int(n: i64) -> Expr {
    Expr {
        kind: ExprKind::Int(n),
        span: Span::dummy(),
    }
}

#[test]
fn shorthand_color_passes_through_string_value() {
    let cls = classify("color", &lit_str("#fff"));
    let QssClass::Shorthand(pseudo, kebab, val) = cls else {
        panic!("expected shorthand");
    };
    assert_eq!(pseudo, QssPseudo::Base);
    assert_eq!(kebab, "color");
    assert_eq!(val, "#fff");
}

#[test]
fn length_key_auto_appends_px() {
    let cls = classify("borderRadius", &lit_int(32));
    let QssClass::Shorthand(_, _, val) = cls else {
        panic!("expected shorthand");
    };
    assert_eq!(val, "32px");
}

#[test]
fn font_weight_int_no_px_suffix() {
    let cls = classify("fontWeight", &lit_int(500));
    let QssClass::Shorthand(_, _, val) = cls else {
        panic!("expected shorthand");
    };
    assert_eq!(val, "500");
}

#[test]
fn hover_prefix_routes_to_hover_bucket() {
    let cls = classify("hover.background", &lit_str("#3d3d3d"));
    let QssClass::Shorthand(pseudo, kebab, _) = cls else {
        panic!("expected shorthand");
    };
    assert_eq!(pseudo, QssPseudo::Hover);
    assert_eq!(kebab, "background");
}

#[test]
fn unknown_key_is_passthrough() {
    assert!(matches!(
        classify("notARealQssKey", &lit_str("v")),
        QssClass::Passthrough
    ));
}

#[test]
fn dotted_non_pseudo_is_passthrough() {
    // `font.pixelSize` is a QML idiom; widget path leaves it alone
    // so codegen emits the (broken) `setFont.pixelSize(...)` line
    // the user's existing code expects, rather than silently
    // hijacking it.
    assert!(matches!(
        classify("font.pixelSize", &lit_int(28)),
        QssClass::Passthrough
    ));
}

#[test]
fn text_align_maps_to_qproperty_alignment() {
    let cls = classify("textAlign", &lit_str("right"));
    let QssClass::Shorthand(_, kebab, val) = cls else {
        panic!("expected shorthand");
    };
    assert_eq!(kebab, "qproperty-alignment");
    assert_eq!(val, "AlignRight");
}

#[test]
fn render_groups_by_pseudo() {
    let mut bag = QssBag::default();
    bag.push(QssPseudo::Base, "background", "#333".into());
    bag.push(QssPseudo::Base, "color", "#fff".into());
    bag.push(QssPseudo::Hover, "background", "#3d3d3d".into());
    bag.push(QssPseudo::Pressed, "background", "#555".into());
    let qss = bag.render("QPushButton");
    assert!(qss.contains("QPushButton { background: #333; color: #fff; }"));
    assert!(qss.contains("QPushButton:hover { background: #3d3d3d; }"));
    assert!(qss.contains("QPushButton:pressed { background: #555; }"));
}

#[test]
fn last_write_wins_per_key() {
    // A `+` merge with `Card + Big` may emit `padding` twice with
    // the right side intended to win.
    let mut bag = QssBag::default();
    bag.push(QssPseudo::Base, "padding", "4px".into());
    bag.push(QssPseudo::Base, "padding", "32px".into());
    let qss = bag.render("QLabel");
    assert!(qss.contains("padding: 32px"));
    assert!(!qss.contains("padding: 4px"));
}

#[test]
fn a_bag_holds_the_last_pushes() {
    let mut bag = QssBag::default();
    let pushes = [
        (QssPseudo::Base, "color", "red"),
        (QssPseudo::Base, "padding", "1px"),
        (QssPseudo::Hover, "color", "blue"),
        (QssPseudo::Base, "border", "none"),
        (QssPseudo::Base, "color", "green"),
        (QssPseudo::Hover, "color", "blue"),
        (QssPseudo::Base, "border", "2px"),
    ];
    for (p, k, v) in pushes {
        bag.push(p, k, v.to_string());
    }
    let entry = |k: &'static str, v: &str| (k, v.to_string());
    assert_eq!(
        bag.base,
        vec![entry("padding", "1px"), entry("color", "green"), entry("border", "2px")]
    );
    assert_eq!(bag.hover, vec![entry("color", "blue")]);
    assert!(bag.pressed.is_empty() && bag.focus.is_empty());
    assert!(bag.disabled.is_empty() && bag.checked.is_empty());
    assert_eq!(
        bag.render("W"),
        "W { padding: 1px; color: green; border: 2px; } W:hover { color: blue; }"
    );
}
