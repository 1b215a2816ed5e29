use gosub_renderer::border::{border_property, same_text, BorderStyle, Side, StrokeCap};

#[test]
fn all_sides_in_drawing_order() {
    assert_eq!(Side::all(), [Side::Top, Side::Right, Side::Bottom, Side::Left]);
}

#[test]
fn side_keywords() {
    let names: Vec<&str> = Side::all().iter().map(|s| s.to_str()).collect();
    assert_eq!(names, vec!["top", "right", "bottom", "left"]);
}

#[test]
fn every_keyword_reads_its_style() {
    let cases = [
        ("none", BorderStyle::NoBorder),
        ("hidden", BorderStyle::Hidden),
        ("dotted", BorderStyle::Dotted),
        ("dashed", BorderStyle::Dashed),
        ("solid", BorderStyle::Solid),
        ("double", BorderStyle::Double),
        ("groove", BorderStyle::Groove),
        ("ridge", BorderStyle::Ridge),
        ("inset", BorderStyle::Inset),
        ("outset", BorderStyle::Outset),
    ];
    for (keyword, style) in cases {
        assert_eq!(BorderStyle::from_str(keyword), style, "{}", keyword);
    }
}

#[test]
fn unknown_style_reads_as_no_border() {
    assert_eq!(BorderStyle::from_str(""), BorderStyle::NoBorder);
    assert_eq!(BorderStyle::from_str("Dotted"), BorderStyle::NoBorder);
    assert_eq!(BorderStyle::from_str("dotted "), BorderStyle::NoBorder);
    assert_eq!(BorderStyle::from_str("dot"), BorderStyle::NoBorder);
    assert_eq!(BorderStyle::from_str("wavy"), BorderStyle::NoBorder);
}

#[test]
fn caps_follow_the_style() {
    assert_eq!(BorderStyle::Dashed.stroke_cap(), StrokeCap::Square);
    assert_eq!(BorderStyle::Dotted.stroke_cap(), StrokeCap::Round);
    assert_eq!(BorderStyle::Solid.stroke_cap(), StrokeCap::Butt);
    assert_eq!(BorderStyle::NoBorder.stroke_cap(), StrokeCap::Butt);
    assert_eq!(BorderStyle::Double.stroke_cap(), StrokeCap::Butt);
}

#[test]
fn dash_patterns_follow_the_style() {
    assert_eq!(BorderStyle::Dashed.dash_factor(), Some(3));
    assert_eq!(BorderStyle::Dotted.dash_factor(), Some(1));
    assert_eq!(BorderStyle::Solid.dash_factor(), None);
    assert_eq!(BorderStyle::Groove.dash_factor(), None);
}

#[test]
fn per_side_property_names() {
    assert_eq!(border_property(Side::Top, "color"), "border-top-color");
    assert_eq!(border_property(Side::Right, "style"), "border-right-style");
    assert_eq!(border_property(Side::Bottom, "color"), "border-bottom-color");
    assert_eq!(border_property(Side::Left, "style"), "border-left-style");
}

#[test]
fn property_names_differ_between_sides() {
    let names: Vec<String> = Side::all().iter().map(|s| border_property(*s, "color")).collect();
    for i in 0..names.len() {
        for j in 0..names.len() {
            assert_eq!(i == j, names[i] == names[j]);
        }
    }
}

#[test]
fn same_text_compares_characters() {
    assert!(same_text("solid", "solid"));
    assert!(same_text("", ""));
    assert!(!same_text("solid", "solids"));
    assert!(!same_text("sölid", "solid"));
    assert!(same_text("└── x", "└── x"));
}
