use gosub_renderer::outline::{
    branch_marker, child_has_sibling, child_indent, element_label, is_white_space_char, text_label,
};

#[test]
fn white_space_matches_std() {
    for u in 0..=0x10FFFFu32 {
        if let Some(c) = char::from_u32(u) {
            assert_eq!(is_white_space_char(c), c.is_whitespace(), "U+{:04X}", u);
        }
    }
}

#[test]
fn text_label_joins_lines_and_trims() {
    assert_eq!(text_label("  hello\nworld \n"), "hello world");
    assert_eq!(text_label("\n\n"), "");
    assert_eq!(text_label(""), "");
    assert_eq!(text_label("a\n\nb"), "a  b");
    assert_eq!(text_label("\u{3000}x\u{85}"), "x");
    assert_eq!(text_label("\t tab\r"), "tab");
}

#[test]
fn text_label_matches_replace_then_trim() {
    let samples = [
        "plain",
        " lead",
        "trail ",
        "\n\nmiddle\nlines\n",
        "\u{2028}unicode\u{00A0}space\u{2029}",
        "ünïcödé \u{1680}",
        "   ",
        "x",
    ];
    for s in samples {
        assert_eq!(text_label(s), s.replace('\n', " ").trim(), "{:?}", s);
    }
}

#[test]
fn text_label_is_stable() {
    let once = text_label(" a\nb ");
    assert_eq!(text_label(&once), once);
}

#[test]
fn element_label_lists_attributes_in_order() {
    let attrs = vec![
        ("id".to_string(), "main".to_string()),
        ("class".to_string(), "a b".to_string()),
    ];
    assert_eq!(element_label("div", &attrs), "<div id=\"main\" class=\"a b\">");
    assert_eq!(element_label("br", &Vec::new()), "<br>");
}

#[test]
fn branches() {
    assert_eq!(branch_marker(true), "├── ");
    assert_eq!(branch_marker(false), "└── ");
}

#[test]
fn only_the_last_child_has_no_sibling() {
    assert!(child_has_sibling(0, 3));
    assert!(child_has_sibling(1, 3));
    assert!(!child_has_sibling(2, 3));
    assert!(!child_has_sibling(0, 1));
}

#[test]
fn indents_grow_one_level_at_a_time() {
    let root = String::new();
    let first = child_indent(root, true);
    assert_eq!(first, "│   ");
    let second = child_indent(first, false);
    assert_eq!(second, "│       ");
    assert_eq!(second.chars().count(), 8);
}
