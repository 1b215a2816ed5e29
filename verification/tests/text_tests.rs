use gosub_renderer::text::TextData;

#[test]
fn new_text_is_empty() {
    assert_eq!(TextData::new().value(), "");
}

#[test]
fn default_is_new() {
    assert_eq!(TextData::default(), TextData::new());
}

#[test]
fn value_reads_back_what_was_given() {
    assert_eq!(TextData::with_value("Hello world").value(), "Hello world");
    assert_eq!(TextData::with_value("  spaced\n").value(), "  spaced\n");
    assert_eq!(TextData::with_value("").value(), "");
}

#[test]
fn equal_values_make_equal_nodes() {
    let a = TextData::with_value("abc");
    assert_eq!(a.clone(), TextData::with_value("abc"));
    assert_ne!(a, TextData::with_value("abd"));
}
