use dioxus_template::ids::RendererTemplateId;
use dioxus_template::location::{
    CodeLocation, OwnedCodeLocation, StaticCodeLocation, TemplateId,
};
use dioxus_template::resolver::TemplateResolver;

const FIXED: StaticCodeLocation =
    StaticCodeLocation { crate_path: "ui", file_path: "app.rs", line: 1, column: 1 };

fn template(line: u32) -> TemplateId {
    TemplateId(CodeLocation::Dynamic(Box::new(OwnedCodeLocation {
        crate_path: "ui".to_string(),
        file_path: "app.rs".to_string(),
        line,
        column: 1,
    })))
}

#[test]
fn ids_are_given_out_in_order() {
    let mut resolver = TemplateResolver::default();
    assert_eq!(resolver.template_count, 0);
    assert_eq!(resolver.get_or_create_client_id(&template(1)), (RendererTemplateId(0), true));
    assert_eq!(resolver.get_or_create_client_id(&template(2)), (RendererTemplateId(1), true));
    assert_eq!(resolver.get_or_create_client_id(&template(3)), (RendererTemplateId(2), true));
    assert_eq!(resolver.template_count, 3);
}

#[test]
fn a_template_keeps_its_id() {
    let mut resolver = TemplateResolver::default();
    resolver.get_or_create_client_id(&template(1));
    resolver.get_or_create_client_id(&template(2));
    assert_eq!(resolver.get_or_create_client_id(&template(1)), (RendererTemplateId(0), false));
    assert_eq!(resolver.get_or_create_client_id(&template(2)), (RendererTemplateId(1), false));
    assert_eq!(resolver.template_count, 2);
}

#[test]
fn equal_locations_share_an_id() {
    let mut resolver = TemplateResolver::default();
    let fixed = TemplateId(CodeLocation::Static(&FIXED));
    assert_eq!(resolver.get_or_create_client_id(&fixed), (RendererTemplateId(0), true));
    assert_eq!(resolver.get_or_create_client_id(&template(1)), (RendererTemplateId(0), false));
}

#[test]
fn a_new_template_is_clean() {
    let mut resolver = TemplateResolver::default();
    assert!(!resolver.is_dirty(&template(1)));
    resolver.get_or_create_client_id(&template(1));
    assert!(!resolver.is_dirty(&template(1)));
}

#[test]
fn a_marked_template_is_created_again() {
    let mut resolver = TemplateResolver::default();
    resolver.get_or_create_client_id(&template(1));
    resolver.get_or_create_client_id(&template(2));
    assert!(resolver.mark_dirty(&template(2)));
    assert!(resolver.is_dirty(&template(2)));
    assert!(!resolver.is_dirty(&template(1)));
    assert_eq!(resolver.get_or_create_client_id(&template(2)), (RendererTemplateId(1), false));
    assert!(resolver.is_dirty(&template(2)));
    assert_eq!(resolver.get_or_create_client_id(&template(1)), (RendererTemplateId(0), false));
    assert_eq!(resolver.template_count, 2);
}

#[test]
fn a_template_is_known_once_it_has_an_id() {
    let mut resolver = TemplateResolver::default();
    assert!(!resolver.is_known(&template(1)));
    resolver.get_or_create_client_id(&template(1));
    assert!(resolver.is_known(&template(1)));
    assert!(!resolver.is_known(&template(2)));
}

#[test]
fn a_known_template_keeps_its_id_when_no_ids_are_left() {
    let mut resolver = TemplateResolver::default();
    resolver.get_or_create_client_id(&template(1));
    resolver.template_count = usize::MAX;
    assert_eq!(resolver.get_or_create_client_id(&template(1)), (RendererTemplateId(0), false));
    assert_eq!(resolver.template_count, usize::MAX);
}

#[test]
fn an_unknown_template_cannot_be_marked() {
    let mut resolver = TemplateResolver::default();
    assert!(!resolver.mark_dirty(&template(1)));
    assert!(!resolver.is_dirty(&template(1)));
    assert_eq!(resolver.template_count, 0);
    assert_eq!(resolver.get_or_create_client_id(&template(1)), (RendererTemplateId(0), true));
}

#[test]
fn every_part_of_the_location_counts() {
    let mut resolver = TemplateResolver::default();
    let base = ("ui", "app.rs", 1, 1);
    let others =
        [base, ("app", "app.rs", 1, 1), ("ui", "lib.rs", 1, 1), ("ui", "app.rs", 2, 1), (
            "ui", "app.rs", 1, 2,
        )];
    for (i, (crate_path, file_path, line, column)) in others.into_iter().enumerate() {
        let id = TemplateId(CodeLocation::Dynamic(Box::new(OwnedCodeLocation {
            crate_path: crate_path.to_string(),
            file_path: file_path.to_string(),
            line,
            column,
        })));
        assert_eq!(resolver.get_or_create_client_id(&id), (RendererTemplateId(i), true));
    }
}

#[test]
fn ids_and_marks_hold_over_a_history() {
    let mut resolver = TemplateResolver::default();
    let mut ids = vec![];
    assert!(!resolver.mark_dirty(&template(3)));
    for line in [1, 2, 1, 3, 2, 3, 1] {
        ids.push((line, resolver.get_or_create_client_id(&template(line)).0));
        assert_eq!(resolver.mark_dirty(&template(2)), ids.iter().any(|(line, _)| *line == 2));
    }
    for (line, id) in &ids {
        for (other_line, other_id) in &ids {
            assert_eq!(id == other_id, line == other_line);
        }
    }
    assert!(!resolver.is_dirty(&template(1)));
    assert!(resolver.is_dirty(&template(2)));
    assert!(!resolver.is_dirty(&template(3)));
}

#[test]
fn marks_do_not_need_ids_that_are_left() {
    let mut resolver = TemplateResolver::default();
    resolver.get_or_create_client_id(&template(1));
    resolver.template_count = usize::MAX;
    assert!(resolver.mark_dirty(&template(1)));
    assert!(resolver.is_dirty(&template(1)));
    assert!(!resolver.mark_dirty(&template(2)));
}
