//! The identifiers that templates, their nodes and the mounted elements go by.
use vstd::prelude::*;

verus! {

/// The largest integer that JavaScript represents exactly.
pub const JS_MAX_INT: u64 = 9007199254740991;

/// A template's unique identifier within the renderer.
///
/// A renderer id is never given to a second template, not even at a later time.
#[derive(Copy, Clone, PartialEq, Eq, Hash, Debug, Structural)]
pub struct RendererTemplateId(pub usize);

impl From<RendererTemplateId> for u64 {
    fn from(id: RendererTemplateId) -> (res: u64) {
        id.0 as u64
    }
}

impl vstd::std_specs::convert::FromSpecImpl<RendererTemplateId> for u64 {
    open spec fn obeys_from_spec() -> bool {
        true
    }

    open spec fn from_spec(id: RendererTemplateId) -> u64 {
        id.0 as u64
    }
}

/// A template node's identifier.
///
/// It is unique across the nodes of one template only, and all instances of the template share it.
/// Where a template refers to one of its nodes, it is the node's position among them.
#[derive(Copy, Clone, PartialEq, Eq, Hash, Debug, Structural)]
pub struct TemplateNodeId(pub usize);

/// The renderer's number for a template node: the upper half of the JavaScript integers, counted
/// from the middle and modulo the size of `u64`.
pub open spec fn js_node_number(id: TemplateNodeId) -> int {
    (JS_MAX_INT / 2 + id.0) % 0x1_0000_0000_0000_0000
}

impl From<TemplateNodeId> for u64 {
    fn from(id: TemplateNodeId) -> (res: u64) {
        (JS_MAX_INT / 2).wrapping_add(id.0 as u64)
    }
}

impl vstd::std_specs::convert::FromSpecImpl<TemplateNodeId> for u64 {
    open spec fn obeys_from_spec() -> bool {
        true
    }

    open spec fn from_spec(id: TemplateNodeId) -> u64 {
        js_node_number(id) as u64
    }
}

/// The identifier of an element that is mounted in the document.
#[derive(Copy, Clone, PartialEq, Eq, Hash, Debug, Structural)]
pub struct ElementId(pub usize);

/// The identifier of the component scope that renders a node.
#[derive(Copy, Clone, PartialEq, Eq, Hash, Debug, Structural)]
pub struct ScopeId(pub usize);

/// The identifier of a node anywhere in the document.
#[derive(Copy, Clone, PartialEq, Eq, Hash, Debug, Structural)]
pub enum GlobalNodeId {
    /// A node inside an instance of a template.
    TemplateId {
        /// The instance of the template.
        template_ref_id: ElementId,
        /// The node within the template.
        template_node_id: TemplateNodeId,
    },
    /// A node of its own.
    VNodeId(ElementId),
}

/// Below half of the JavaScript integers the numbers are plain: a template keeps its own, a node
/// is shifted by that half. Within these bounds every number is an exact JavaScript integer, and no
/// template shares a number with a node.
pub proof fn law_numbers_of_templates_and_nodes_are_apart(
    template: RendererTemplateId,
    node: TemplateNodeId,
)
    requires
        template.0 < JS_MAX_INT / 2,
        node.0 <= JS_MAX_INT / 2,
    ensures
        <u64 as vstd::std_specs::convert::FromSpec<RendererTemplateId>>::from_spec(template)
            == template.0,
        <u64 as vstd::std_specs::convert::FromSpec<TemplateNodeId>>::from_spec(node) == JS_MAX_INT
            / 2 + node.0,
        <u64 as vstd::std_specs::convert::FromSpec<RendererTemplateId>>::from_spec(template)
            < <u64 as vstd::std_specs::convert::FromSpec<TemplateNodeId>>::from_spec(node),
        <u64 as vstd::std_specs::convert::FromSpec<TemplateNodeId>>::from_spec(node) <= JS_MAX_INT,
{
}

/// Two nodes of a template never share a number.
pub proof fn law_node_numbers_are_distinct(a: TemplateNodeId, b: TemplateNodeId)
    requires
        a != b,
    ensures
        <u64 as vstd::std_specs::convert::FromSpec<TemplateNodeId>>::from_spec(a)
            != <u64 as vstd::std_specs::convert::FromSpec<TemplateNodeId>>::from_spec(b),
{
}

/// A template keeps its own number, and as long as a `u64` holds it, a node's number is half of the
/// JavaScript integers above its own. Beyond that the numbers start again from zero.
pub proof fn law_numbers_of_templates_and_nodes(template: RendererTemplateId, node: TemplateNodeId)
    ensures
        <u64 as vstd::std_specs::convert::FromSpec<RendererTemplateId>>::from_spec(template)
            == template.0,
        4503599627370495 + node.0 <= u64::MAX ==> <u64 as vstd::std_specs::convert::FromSpec<
            TemplateNodeId,
        >>::from_spec(node) == 4503599627370495 + node.0,
        4503599627370495 + node.0 > u64::MAX ==> <u64 as vstd::std_specs::convert::FromSpec<
            TemplateNodeId,
        >>::from_spec(node) == 4503599627370495 + node.0 - u64::MAX - 1,
{
}

/// The numbers that templates and nodes are turned into.
pub proof fn law_ids_are_turned_into_numbers(
    template: RendererTemplateId,
    node: TemplateNodeId,
    template_number: u64,
    node_number: u64,
)
    ensures
        call_ensures(<u64 as From<RendererTemplateId>>::from, (template,), template_number)
            ==> template_number == template.0,
        call_ensures(<u64 as From<TemplateNodeId>>::from, (node,), node_number) && JS_MAX_INT / 2
            + node.0 <= u64::MAX ==> node_number == JS_MAX_INT / 2 + node.0,
{
}

} // verus!
