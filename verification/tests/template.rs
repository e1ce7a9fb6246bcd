use std::marker::PhantomData;

use bumpalo::Bump;

use dioxus_template::context::TemplateContext;
use dioxus_template::finite::creatable_nodes;
use dioxus_template::hydrate::DiffState;
use dioxus_template::ids::{
    ElementId, GlobalNodeId, RendererTemplateId, ScopeId, TemplateNodeId,
};
use dioxus_template::location::{CodeLocation, StaticCodeLocation, TemplateId};
use dioxus_template::mapping::DynamicNodeMapping;
use dioxus_template::mutations::{Attribute, DomEdit, Listener, Mutations};
use dioxus_template::node::{
    AttributeDiscription, OwnedTemplateNode, StaticTemplateNode, TemplateAttribute,
    TemplateAttributeValue, TemplateElement, TemplateNode, TemplateNodeType, TextTemplate,
    TextTemplateSegment,
};
use dioxus_template::template::{OwnedTemplate, SetTemplateMsg, StaticTemplate, Template};
use dioxus_template::template_ref::VTemplateRef;
use dioxus_template::value::{AttributeValue, OwnedAttributeValue, StaticAttributeValue};

const HERE: StaticCodeLocation =
    StaticCodeLocation { crate_path: "ui", file_path: "app.rs", line: 1, column: 1 };

const CLASS: AttributeDiscription =
    AttributeDiscription { name: "class", namespace: None, volatile: false };

const COLOR: AttributeDiscription =
    AttributeDiscription { name: "color", namespace: Some("style"), volatile: true };

fn n(id: usize) -> TemplateNodeId {
    TemplateNodeId(id)
}

fn leak<T>(items: Vec<T>) -> &'static [T] {
    Box::leak(items.into_boxed_slice())
}

fn owned_node(
    id: usize,
    node_type: TemplateNodeType<
        Vec<TemplateAttribute<OwnedAttributeValue>>,
        OwnedAttributeValue,
        Vec<TemplateNodeId>,
        Vec<usize>,
        Vec<TextTemplateSegment<String>>,
        String,
    >,
) -> OwnedTemplateNode {
    TemplateNode { id: n(id), locally_static: id == 1, fully_static: false, node_type }
}

fn element(id: usize, children: Vec<usize>) -> OwnedTemplateNode {
    owned_node(
        id,
        TemplateNodeType::Element(TemplateElement::new(
            "p",
            None,
            vec![],
            children.into_iter().map(TemplateNodeId).collect(),
            vec![],
            None,
        )),
    )
}

fn text(id: usize, segments: Vec<TextTemplateSegment<String>>) -> OwnedTemplateNode {
    owned_node(id, TemplateNodeType::Text(TextTemplate::new(segments)))
}

fn fixed(text: &str) -> TextTemplateSegment<String> {
    TextTemplateSegment::Static(text.to_string())
}

/// div { class: "c", color: {0}, onclick: {0}, "Hello, world", "x = {0}", {0} }
fn owned_template() -> OwnedTemplate {
    OwnedTemplate {
        nodes: vec![
            owned_node(
                0,
                TemplateNodeType::Element(TemplateElement::new(
                    "div",
                    Some("svg"),
                    vec![
                        TemplateAttribute {
                            attribute: CLASS,
                            value: TemplateAttributeValue::Static(OwnedAttributeValue::Text(
                                "c".to_string(),
                            )),
                        },
                        TemplateAttribute {
                            attribute: COLOR,
                            value: TemplateAttributeValue::Dynamic(0),
                        },
                    ],
                    vec![n(1), n(2), n(3)],
                    vec![0],
                    None,
                )),
            ),
            text(1, vec![fixed("Hello, world")]),
            text(2, vec![fixed("x = "), TextTemplateSegment::Dynamic(0)]),
            owned_node(3, TemplateNodeType::DynamicNode(0)),
        ],
        root_nodes: vec![n(0)],
        dynamic_mapping: DynamicNodeMapping::new(
            vec![Some(n(3))],
            vec![vec![n(2)]],
            vec![vec![(n(0), 1)]],
            vec![(n(0), 1)],
            vec![n(0)],
        ),
    }
}

fn static_template() -> &'static StaticTemplate {
    let node = |id: usize, node_type| -> StaticTemplateNode {
        TemplateNode { id: n(id), locally_static: id == 1, fully_static: false, node_type }
    };
    let nodes = vec![
        node(
            0,
            TemplateNodeType::Element(TemplateElement::new(
                "div",
                Some("svg"),
                leak(vec![
                    TemplateAttribute {
                        attribute: CLASS,
                        value: TemplateAttributeValue::Static(StaticAttributeValue::Text("c")),
                    },
                    TemplateAttribute {
                        attribute: COLOR,
                        value: TemplateAttributeValue::Dynamic(0),
                    },
                ]),
                leak(vec![n(1), n(2), n(3)]),
                leak(vec![0]),
                None,
            )),
        ),
        node(
            1,
            TemplateNodeType::Text(TextTemplate::new(leak(vec![TextTemplateSegment::Static(
                "Hello, world",
            )]))),
        ),
        node(
            2,
            TemplateNodeType::Text(TextTemplate::new(leak(vec![
                TextTemplateSegment::Static("x = "),
                TextTemplateSegment::Dynamic(0),
            ]))),
        ),
        node(3, TemplateNodeType::DynamicNode(0)),
    ];
    Box::leak(Box::new(StaticTemplate {
        nodes: leak(nodes),
        root_nodes: leak(vec![n(0)]),
        dynamic_mapping: DynamicNodeMapping::new(
            leak(vec![Some(n(3))]),
            leak(vec![leak(vec![n(2)])]),
            leak(vec![leak(vec![(n(0), 1)])]),
            leak(vec![(n(0), 1)]),
            leak(vec![n(0)]),
        ),
    }))
}

fn templates() -> Vec<Template> {
    vec![Template::Static(static_template()), Template::Owned(owned_template())]
}

fn from_nodes(nodes: Vec<OwnedTemplateNode>, roots: Vec<usize>) -> Template {
    Template::Owned(OwnedTemplate {
        nodes,
        root_nodes: roots.into_iter().map(TemplateNodeId).collect(),
        dynamic_mapping: DynamicNodeMapping::new(vec![], vec![], vec![], vec![], vec![]),
    })
}

fn created(template: &Template, id: usize) -> String {
    let bump = Bump::new();
    let mut mutations = Mutations::new();
    template.create(&mut mutations, &bump, RendererTemplateId(id));
    format!("{:?}", mutations.edits)
}

/// What the edits do to the number of nodes on the renderer's stack.
fn stack_size(edits: &[DomEdit<'_>]) -> i64 {
    let mut size: i64 = 0;
    for edit in edits {
        match edit {
            DomEdit::CreateElementTemplate { .. }
            | DomEdit::CreateTextNodeTemplate { .. }
            | DomEdit::CreatePlaceholderTemplate { .. } => size += 1,
            DomEdit::AppendChildren { count } => {
                assert!(size > *count as i64);
                size -= *count as i64
            },
            DomEdit::FinishTemplate { len } => size -= *len as i64,
            DomEdit::ReplaceWith { created, .. } => size -= *created as i64,
            _ => {},
        }
    }
    size
}

#[test]
fn creating_a_template_sends_its_static_parts() {
    for template in templates() {
        assert!(template.is_creatable());
        let bump = Bump::new();
        let mut mutations = Mutations::new();
        template.create(&mut mutations, &bump, RendererTemplateId(5));
        let class =
            Attribute { attribute: CLASS, value: AttributeValue::Text("c"), is_static: true };
        assert_eq!(
            mutations.edits,
            vec![
                DomEdit::CreateTemplate { template: RendererTemplateId(5) },
                DomEdit::CreateElementTemplate {
                    tag: "div",
                    namespace: Some("svg"),
                    id: n(0),
                    locally_static: false,
                    fully_static: false,
                },
                DomEdit::SetAttribute { attribute: &class, id: n(0) },
                DomEdit::CreateTextNodeTemplate {
                    text: "Hello, world",
                    id: n(1),
                    locally_static: true,
                },
                DomEdit::CreateTextNodeTemplate { text: "", id: n(2), locally_static: false },
                DomEdit::CreatePlaceholderTemplate { id: n(3) },
                DomEdit::AppendChildren { count: 3 },
                DomEdit::FinishTemplate { len: 1 },
            ]
        );
        assert_eq!(stack_size(&mutations.edits), 0);
    }
}

#[test]
fn creating_adds_to_earlier_changes() {
    let bump = Bump::new();
    let mut mutations = Mutations::new();
    mutations.exit_template_ref();
    from_nodes(vec![], vec![]).create(&mut mutations, &bump, RendererTemplateId(0));
    assert_eq!(mutations.edits.len(), 3);
    assert_eq!(mutations.edits[0], DomEdit::ExitTemplateRef);
}

#[test]
fn creating_a_node_leaves_one_node() {
    let bump = Bump::new();
    let mut mutations = Mutations::new();
    for template in templates() {
        for id in 0..4 {
            mutations.edits.clear();
            template.create_node(&mut mutations, &bump, n(id));
            assert_eq!(stack_size(&mutations.edits), 1);
        }
    }
}

#[test]
fn an_empty_template_has_no_roots() {
    let template = from_nodes(vec![], vec![4, 5]);
    assert!(template.is_creatable());
    let bump = Bump::new();
    let mut mutations = Mutations::new();
    template.create(&mut mutations, &bump, RendererTemplateId(1));
    assert_eq!(
        mutations.edits,
        vec![
            DomEdit::CreateTemplate { template: RendererTemplateId(1) },
            DomEdit::FinishTemplate { len: 0 },
        ]
    );
}

#[test]
fn edits_name_the_ids_that_the_nodes_carry() {
    let mut node = text(0, vec![]);
    node.id = n(77);
    let template = from_nodes(vec![node], vec![0, 0]);
    let bump = Bump::new();
    let mut mutations = Mutations::new();
    template.create(&mut mutations, &bump, RendererTemplateId(0));
    let create = DomEdit::CreateTextNodeTemplate { text: "", id: n(77), locally_static: false };
    assert_eq!(mutations.edits[1], create);
    assert_eq!(mutations.edits[2], create);
    assert_eq!(mutations.edits[3], DomEdit::FinishTemplate { len: 2 });
}

#[test]
fn only_a_single_static_segment_is_known_in_advance() {
    let bump = Bump::new();
    let cases = vec![
        (vec![], ""),
        (vec![fixed("a")], "a"),
        (vec![fixed("a"), fixed("b")], ""),
        (vec![TextTemplateSegment::Dynamic(0)], ""),
    ];
    for (segments, expected) in cases {
        let template = from_nodes(vec![text(0, segments)], vec![0]);
        let mut mutations = Mutations::new();
        template.create_node(&mut mutations, &bump, n(0));
        assert_eq!(
            mutations.edits,
            vec![DomEdit::CreateTextNodeTemplate {
                text: expected,
                id: n(0),
                locally_static: false,
            }]
        );
    }
}

#[test]
fn a_shared_node_is_created_each_time() {
    let template = from_nodes(vec![element(0, vec![2, 2]), element(1, vec![0]), text(2, vec![])], vec![
        1, 2,
    ]);
    assert!(template.is_creatable());
    let bump = Bump::new();
    let mut mutations = Mutations::new();
    template.create(&mut mutations, &bump, RendererTemplateId(0));
    assert_eq!(stack_size(&mutations.edits), 0);
    let texts = mutations
        .edits
        .iter()
        .filter(|edit| matches!(edit, DomEdit::CreateTextNodeTemplate { .. }))
        .count();
    assert_eq!(texts, 3);
}

#[test]
fn storage_does_not_show() {
    let both = templates();
    assert_eq!(created(&both[0], 3), created(&both[1], 3));
    assert_eq!(both[0].all_dynamic(), both[1].all_dynamic());
}

#[test]
fn infinite_templates_are_found_out() {
    assert!(!from_nodes(vec![element(0, vec![0])], vec![0]).is_creatable());
    assert!(!from_nodes(vec![element(0, vec![1]), element(1, vec![0])], vec![0]).is_creatable());
    assert!(!from_nodes(vec![element(0, vec![1])], vec![0]).is_creatable());
    assert!(!from_nodes(vec![text(0, vec![])], vec![1]).is_creatable());
    // A part that no root leads to does not matter.
    assert!(from_nodes(vec![text(0, vec![]), element(1, vec![1])], vec![0]).is_creatable());
}

#[test]
fn finite_trees_are_found() {
    let nodes = vec![
        element(0, vec![1, 2]),
        text(1, vec![]),
        element(2, vec![3]),
        element(3, vec![1]),
        element(4, vec![0, 5]),
        element(5, vec![4]),
        element(6, vec![9]),
    ];
    assert_eq!(creatable_nodes(&nodes), vec![true, true, true, true, false, false, false]);
}

#[test]
fn lookups_read_the_mapping() {
    for template in templates() {
        assert_eq!(template.all_dynamic(), vec![n(3), n(2), n(0), n(0)]);
        assert_eq!(template.volatile_attributes(), &[(n(0), 1)]);
        assert_eq!(template.get_dynamic_nodes_for_node_index(0), Some(n(3)));
        assert_eq!(template.get_dynamic_nodes_for_text_index(0), &[n(2)]);
        assert_eq!(template.get_dynamic_nodes_for_attribute_index(0), &[(n(0), 1)]);
    }
}

#[test]
fn the_mapping_lists_every_dynamic_node() {
    let mapping = DynamicNodeMapping::new(
        vec![None, Some(n(1)), None],
        vec![vec![n(2), n(3)], vec![], vec![n(4)]],
        vec![vec![(n(5), 0)], vec![(n(6), 1), (n(5), 2)]],
        vec![(n(9), 0)],
        vec![n(7), n(7)],
    );
    assert_eq!(
        mapping.all_dynamic(),
        vec![n(1), n(2), n(3), n(4), n(5), n(6), n(5), n(7), n(7)]
    );
    assert_eq!(mapping.clone(), mapping);
}

#[test]
fn nodes_are_handed_to_the_function_for_their_storage() {
    let both = templates();
    let tell = |template: &Template| {
        template.with_node(
            n(1),
            |node: &StaticTemplateNode, offset: usize| ("static", node.id.0 + offset),
            |node: &OwnedTemplateNode, offset: usize| ("owned", node.id.0 + offset),
            10,
        )
    };
    assert_eq!(tell(&both[0]), ("static", 11));
    assert_eq!(tell(&both[1]), ("owned", 11));
    let counts = std::cell::RefCell::new(Vec::new());
    for template in &both {
        template.with_nodes(
            |nodes: &&'static [StaticTemplateNode], bonus: usize| {
                counts.borrow_mut().push(nodes.len() + bonus)
            },
            |nodes: &Vec<OwnedTemplateNode>, bonus: usize| {
                counts.borrow_mut().push(10 * nodes.len() + bonus)
            },
            1,
        );
    }
    assert_eq!(*counts.borrow(), vec![5, 41]);
}

#[test]
fn static_nodes_are_recognised() {
    let template = owned_template();
    let kinds: Vec<_> = template.nodes.iter().map(|node| node.node_type.clone()).collect();
    assert!(!kinds[0].locally_static());
    assert!(kinds[1].locally_static());
    assert!(!kinds[2].locally_static());
    assert!(!kinds[3].locally_static());
    assert!(kinds[1].fully_static(&kinds));
    assert!(!kinds[0].fully_static(&kinds));
    let listening = TemplateElement::new(
        "p",
        None,
        Vec::<TemplateAttribute<OwnedAttributeValue>>::new(),
        vec![],
        vec![3],
        None,
    );
    let listening: OwnedTemplateNode = owned_node(0, TemplateNodeType::Element(listening));
    assert!(!listening.node_type.locally_static());
}

#[test]
fn a_node_is_fully_static_with_everything_below_it() {
    let kinds = |nodes: Vec<OwnedTemplateNode>| -> Vec<_> {
        nodes.into_iter().map(|node| node.node_type).collect()
    };
    let still = kinds(vec![element(0, vec![1, 2]), element(1, vec![2]), text(2, vec![fixed("a")])]);
    assert!(still[0].fully_static(&still));
    let moving = kinds(vec![
        element(0, vec![1]),
        element(1, vec![2]),
        text(2, vec![TextTemplateSegment::Dynamic(0)]),
    ]);
    assert!(moving[0].locally_static());
    assert!(!moving[0].fully_static(&moving));
}

#[test]
fn the_search_stops_at_the_first_dynamic_node() {
    // The second child of the root is missing, and the third is the root itself.
    let nodes = vec![
        element(0, vec![1, 9, 0]),
        owned_node(1, TemplateNodeType::DynamicNode(0)),
    ];
    let kinds: Vec<_> = nodes.into_iter().map(|node| node.node_type).collect();
    assert!(!kinds[0].fully_static(&kinds));
}

struct VNode(&'static str);

const VNODES: [VNode; 1] = [VNode("list")];

fn state<'b>(bump: &'b Bump) -> DiffState<'b> {
    DiffState {
        mutations: Mutations::new(),
        element_stack: vec![GlobalNodeId::VNodeId(ElementId(1))],
        scope: ScopeId(4),
        scope_bump: bump,
    }
}

fn instance<'b>(
    nodes: &'b [VNode],
    texts: &'b [&'b str],
    attributes: &'b [AttributeValue<'b>],
) -> VTemplateRef<'b, VNode> {
    VTemplateRef {
        id: Some(ElementId(8)),
        template_id: TemplateId(CodeLocation::Static(&HERE)),
        dynamic_context: TemplateContext {
            nodes,
            text_segments: texts,
            attributes,
            listeners: vec![Listener { event: "click", mounted_node: None }],
        },
    }
}

fn instance_node(id: usize) -> GlobalNodeId {
    GlobalNodeId::TemplateId { template_ref_id: ElementId(8), template_node_id: n(id) }
}

#[test]
fn a_whole_instance_is_hydrated() {
    for template in templates() {
        let bump = Bump::new();
        let mut diff = state(&bump);
        let texts = ["42"];
        let attributes = [AttributeValue::Text("red")];
        let mut template_ref = instance(&VNODES, &texts, &attributes);
        assert!(template_ref.is_hydratable(&template));

        let pending = template_ref.hydrate(&template, &mut diff).unwrap();
        assert_eq!(pending.position, 0);
        assert_eq!(pending.node.0, "list");
        assert_eq!(
            diff.mutations.edits,
            vec![DomEdit::EnterTemplateRef { template_ref: ElementId(8) }]
        );
        assert_eq!(
            diff.element_stack,
            vec![GlobalNodeId::VNodeId(ElementId(1)), instance_node(3)]
        );

        assert!(template_ref.resume(&template, &mut diff, pending.position, 2).is_none());
        let color =
            Attribute { attribute: COLOR, value: AttributeValue::Text("red"), is_static: false };
        let click = Listener { event: "click", mounted_node: Some(instance_node(0)) };
        let enter = DomEdit::EnterTemplateRef { template_ref: ElementId(8) };
        let set_color = DomEdit::SetAttribute { attribute: &color, id: n(0) };
        let listen = DomEdit::NewEventListener { listener: click, scope: ScopeId(4) };
        assert_eq!(
            diff.mutations.edits,
            vec![
                enter,
                DomEdit::ReplaceWith { id: n(3), created: 2 },
                DomEdit::ExitTemplateRef,
                enter,
                DomEdit::SetText { text: "x = 42", id: n(2) },
                DomEdit::ExitTemplateRef,
                enter,
                set_color,
                listen,
                DomEdit::ExitTemplateRef,
                enter,
                set_color,
                listen,
                DomEdit::ExitTemplateRef,
            ]
        );
        assert_eq!(diff.element_stack, vec![GlobalNodeId::VNodeId(ElementId(1))]);
        assert_eq!(template_ref.dynamic_context.listeners, vec![click]);
        assert_eq!(stack_size(&diff.mutations.edits), -2);
    }
}

#[test]
fn hydrating_again_sends_the_same() {
    let template = from_nodes_with_texts();
    let bump = Bump::new();
    let texts = ["one", "two"];
    let mut template_ref = instance(&[], &texts, &[]);
    let mut first = state(&bump);
    assert!(template_ref.hydrate(&template, &mut first).is_none());
    let mut second = state(&bump);
    assert!(template_ref.hydrate(&template, &mut second).is_none());
    assert_eq!(first.mutations, second.mutations);
    assert_eq!(
        first.mutations.edits[1],
        DomEdit::SetText { text: "two, one.", id: n(0) }
    );
}

fn from_nodes_with_texts() -> Template {
    Template::Owned(OwnedTemplate {
        nodes: vec![
            text(
                0,
                vec![
                    TextTemplateSegment::Dynamic(1),
                    fixed(", "),
                    TextTemplateSegment::Dynamic(0),
                    fixed("."),
                ],
            ),
        ],
        root_nodes: vec![n(0)],
        dynamic_mapping: DynamicNodeMapping::new(
            vec![],
            vec![vec![n(0)], vec![n(0)]],
            vec![],
            vec![],
            vec![],
        ),
    })
}

#[test]
fn a_static_element_has_nothing_to_fill_in() {
    let bump = Bump::new();
    let mut diff = state(&bump);
    let mut template_ref = instance(&[], &[], &[]);
    let node = element(0, vec![]);
    assert!(node.is_hydratable(&template_ref.dynamic_context));
    assert!(node.hydrate(&mut diff, &mut template_ref).is_none());
    assert_eq!(
        diff.mutations.edits,
        vec![
            DomEdit::EnterTemplateRef { template_ref: ElementId(8) },
            DomEdit::ExitTemplateRef,
        ]
    );
}

#[test]
fn a_static_text_ignores_the_context() {
    let bump = Bump::new();
    let node = text(0, vec![fixed("a"), fixed("b")]);
    let texts = ["other"];
    let mut with_text = instance(&[], &texts, &[]);
    let mut without_text = instance(&[], &[], &[]);
    let mut first = state(&bump);
    let mut second = state(&bump);
    assert!(node.hydrate(&mut first, &mut with_text).is_none());
    assert!(node.hydrate(&mut second, &mut without_text).is_none());
    assert_eq!(first.mutations, second.mutations);
    assert_eq!(first.mutations.edits[1], DomEdit::SetText { text: "ab", id: n(0) });
}

#[test]
fn a_text_that_is_known_in_advance_stays() {
    let bump = Bump::new();
    let node = text(0, vec![fixed("a")]);
    let mut diff = state(&bump);
    assert!(node.hydrate(&mut diff, &mut instance(&[], &[], &[])).is_none());
    let template = from_nodes(vec![node], vec![0]);
    let mut mutations = Mutations::new();
    template.create_node(&mut mutations, &bump, n(0));
    let DomEdit::CreateTextNodeTemplate { text: initial, .. } = mutations.edits[0] else {
        panic!("no text was created");
    };
    assert_eq!(diff.mutations.edits[1], DomEdit::SetText { text: initial, id: n(0) });
}

#[test]
fn each_attribute_is_set_once() {
    let template = Template::Owned(owned_template());
    let bump = Bump::new();
    let mut mutations = Mutations::new();
    template.create_node(&mut mutations, &bump, n(0));
    let attributes = [AttributeValue::Bool(true)];
    let mut diff = state(&bump);
    let mut template_ref = instance(&[], &[], &attributes);
    assert!(owned_template().nodes[0].hydrate(&mut diff, &mut template_ref).is_none());
    let names: Vec<(&str, bool)> = mutations
        .edits
        .iter()
        .chain(diff.mutations.edits.iter())
        .filter_map(|edit| match edit {
            DomEdit::SetAttribute { attribute, .. } => {
                Some((attribute.attribute.name, attribute.is_static))
            },
            _ => None,
        })
        .collect();
    assert_eq!(names, vec![("class", true), ("color", false)]);
}

#[test]
fn templates_can_be_made_of_arrays() {
    let text = TextTemplate::new([TextTemplateSegment::Static("a")]);
    let kind: TemplateNodeType<
        [TemplateAttribute<StaticAttributeValue>; 0],
        StaticAttributeValue,
        [TemplateNodeId; 0],
        [usize; 0],
        [TextTemplateSegment<&str>; 1],
        &str,
    > = TemplateNodeType::Text(text);
    assert!(kind.locally_static());
    assert!(kind.fully_static(&[kind.clone()]));
}

#[test]
fn the_number_of_created_nodes_is_sent_as_u32() {
    let bump = Bump::new();
    let mut diff = state(&bump);
    let node = owned_node(3, TemplateNodeType::DynamicNode(0));
    node.hydrate_created(&mut diff, 0x1_0000_0003);
    assert_eq!(
        diff.mutations.edits,
        vec![DomEdit::ReplaceWith { id: n(3), created: 3 }, DomEdit::ExitTemplateRef]
    );
    assert!(diff.element_stack.is_empty());
    node.hydrate_created(&mut diff, 0);
    assert!(diff.element_stack.is_empty());
}

#[test]
fn a_missing_value_is_found_out() {
    let texts = ["42"];
    let attributes = [AttributeValue::Bool(true)];
    for template in templates() {
        assert!(instance(&VNODES, &texts, &attributes).is_hydratable(&template));
        assert!(!instance(&[], &texts, &attributes).is_hydratable(&template));
        assert!(!instance(&VNODES, &[], &attributes).is_hydratable(&template));
        assert!(!instance(&VNODES, &texts, &[]).is_hydratable(&template));
        let mut unmounted = instance(&VNODES, &texts, &attributes);
        unmounted.id = None;
        assert!(!unmounted.is_hydratable(&template));
        let mut deaf = instance(&VNODES, &texts, &attributes);
        deaf.dynamic_context.listeners.clear();
        assert!(!deaf.is_hydratable(&template));
    }
    let lost = Template::Owned(OwnedTemplate {
        nodes: vec![],
        root_nodes: vec![],
        dynamic_mapping: DynamicNodeMapping::new(vec![Some(n(0))], vec![], vec![], vec![], vec![]),
    });
    assert!(!instance(&VNODES, &texts, &attributes).is_hydratable(&lost));
}

#[test]
fn nodes_are_created_in_preorder() {
    let template = from_nodes(
        vec![
            element(0, vec![4, 1]),
            element(1, vec![2, 3]),
            text(2, vec![fixed("a")]),
            element(3, vec![]),
            element(4, vec![5]),
            text(5, vec![fixed("b")]),
        ],
        vec![0, 3],
    );
    let bump = Bump::new();
    let mut mutations = Mutations::new();
    template.create(&mut mutations, &bump, RendererTemplateId(0));
    let mut order = vec![];
    for edit in &mutations.edits {
        match edit {
            DomEdit::CreateElementTemplate { id, .. }
            | DomEdit::CreateTextNodeTemplate { id, .. }
            | DomEdit::CreatePlaceholderTemplate { id } => order.push(id.0),
            _ => {}
        }
    }
    assert_eq!(order, vec![0, 4, 5, 1, 2, 3, 3]);
}

#[test]
fn an_instance_without_dynamic_parts_need_not_be_mounted() {
    let bump = Bump::new();
    let mut diff = state(&bump);
    let mut template_ref = instance(&[], &[], &[]);
    template_ref.id = None;
    let template = from_nodes(vec![element(0, vec![1]), text(1, vec![fixed("hi")])], vec![0]);
    assert!(template_ref.is_hydratable(&template));
    assert!(template_ref.hydrate(&template, &mut diff).is_none());
    assert!(diff.mutations.edits.is_empty());
    assert_eq!(diff.element_stack, vec![GlobalNodeId::VNodeId(ElementId(1))]);
    assert_eq!(template_ref.id, None);
}

#[test]
fn every_kind_of_node_is_hydrated_within_the_instance() {
    let bump = Bump::new();
    let texts = ["42"];
    let attributes = [AttributeValue::Bool(true)];
    let nodes = owned_template().nodes;
    assert!(nodes.iter().any(|node| matches!(node.node_type, TemplateNodeType::DynamicNode(_))));
    for node in &nodes {
        let mut template_ref = instance(&VNODES, &texts, &attributes);
        let mut diff = state(&bump);
        let enter = DomEdit::EnterTemplateRef { template_ref: ElementId(8) };
        if node.hydrate(&mut diff, &mut template_ref).is_some() {
            assert_eq!(diff.element_stack.last(), Some(&instance_node(node.id.0)));
            diff.mutations.edits.push(DomEdit::AppendChildren { count: 0 });
            node.hydrate_created(&mut diff, 1);
        }
        assert_eq!(diff.element_stack, vec![GlobalNodeId::VNodeId(ElementId(1))]);
        assert_eq!(diff.mutations.edits.first(), Some(&enter));
        assert_eq!(diff.mutations.edits.last(), Some(&DomEdit::ExitTemplateRef));
    }
}

#[test]
fn the_context_resolves_indices() {
    let texts = ["a", "b"];
    let attributes = [AttributeValue::Int32(1), AttributeValue::Int32(2)];
    let template_ref = instance(&VNODES, &texts, &attributes);
    let context = &template_ref.dynamic_context;
    assert_eq!(context.resolve_attribute(1), AttributeValue::Int32(2));
    assert_eq!(context.resolve_listener(0).event, "click");
    assert_eq!(context.resolve_node(0).0, "list");
    let segments = [TextTemplateSegment::Dynamic(1), TextTemplateSegment::Static("-")];
    assert_eq!(context.resolve_text(&segments), "b-");
}

#[test]
fn the_scope_is_the_current_one() {
    let bump = Bump::new();
    let diff = state(&bump);
    assert_eq!(diff.current_scope(), ScopeId(4));
    assert!(std::ptr::eq(diff.current_scope_bump(), &bump));
}

#[test]
fn constructors_keep_their_parts() {
    let element = TemplateElement::new(
        "p",
        Some("svg"),
        Vec::<TemplateAttribute<OwnedAttributeValue>>::new(),
        vec![n(1)],
        vec![2],
        Some(n(3)),
    );
    assert_eq!(element.tag, "p");
    assert_eq!(element.namespace, Some("svg"));
    assert_eq!(element.children, vec![n(1)]);
    assert_eq!(element.listeners, vec![2]);
    assert_eq!(element.parent, Some(n(3)));
    assert_eq!(element.clone(), element);
    let text: TextTemplate<Vec<TextTemplateSegment<String>>, String> =
        TextTemplate::new(vec![fixed("a")]);
    assert_eq!(text.segments, vec![fixed("a")]);
    assert_eq!(text.text, PhantomData);
    assert_eq!(text.clone(), text);
}

#[test]
fn templates_compare_and_clone() {
    assert_eq!(owned_template(), owned_template());
    let mut other = owned_template();
    other.root_nodes.push(n(1));
    assert!(other != owned_template());
    let both = templates();
    assert_eq!(both[0].clone(), both[0]);
    assert_eq!(both[1].clone(), both[1]);
    assert!(both[0] != both[1]);
    let message = SetTemplateMsg(TemplateId(CodeLocation::Static(&HERE)), owned_template());
    assert_eq!(message.clone().1, owned_template());
}
