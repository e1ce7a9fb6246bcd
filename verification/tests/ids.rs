use dioxus_template::ids::{RendererTemplateId, TemplateNodeId, JS_MAX_INT};

#[test]
fn template_numbers_are_plain() {
    assert_eq!(u64::from(RendererTemplateId(0)), 0);
    assert_eq!(u64::from(RendererTemplateId(41)), 41);
}

#[test]
fn node_numbers_start_in_the_middle() {
    assert_eq!(JS_MAX_INT, 9007199254740991);
    assert_eq!(u64::from(TemplateNodeId(0)), 4503599627370495);
    assert_eq!(u64::from(TemplateNodeId(7)), 4503599627370502);
}

#[test]
fn numbers_of_templates_and_nodes_are_apart() {
    let last_template = RendererTemplateId(4503599627370494);
    let last_node = TemplateNodeId(4503599627370495);
    assert!(u64::from(last_template) < u64::from(TemplateNodeId(0)));
    assert!(u64::from(last_node) <= JS_MAX_INT);
}

#[test]
fn node_numbers_are_distinct() {
    let numbers: Vec<u64> = (0..100).map(|i| u64::from(TemplateNodeId(i))).collect();
    for (i, a) in numbers.iter().enumerate() {
        for b in &numbers[i + 1..] {
            assert!(a != b);
        }
    }
}

#[test]
fn node_numbers_wrap() {
    assert_eq!(u64::from(TemplateNodeId(usize::MAX)), 4503599627370494);
}
