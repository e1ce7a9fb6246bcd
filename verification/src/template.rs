//! Templates as a whole, made at compile time or at run time.
use vstd::prelude::*;

use crate::ids::TemplateNodeId;
use crate::location::TemplateId;
use crate::mapping::{MappingView, OwnedDynamicNodeMapping, StaticDynamicNodeMapping};
use crate::node::{node_views, NodeView, OwnedTemplateNode, StaticTemplateNode};

verus! {

/// The nodes of a template that is created at compile time.
pub type StaticTemplateNodes = &'static [StaticTemplateNode];

/// The nodes of a template that is created at run time.
pub type OwnedTemplateNodes = Vec<OwnedTemplateNode>;

/// The roots of a template that is created at compile time.
pub type StaticRootNodes = &'static [TemplateNodeId];

/// The roots of a template that is created at run time.
pub type OwnedRootNodes = Vec<TemplateNodeId>;

/// A template that is created at compile time.
#[derive(Debug, PartialEq)]
pub struct StaticTemplate {
    /// The nodes in the template.
    pub nodes: StaticTemplateNodes,
    /// The ids of the root nodes in the template.
    pub root_nodes: StaticRootNodes,
    /// Any nodes that contain dynamic components. This is stored in the template to avoid
    /// traversing the tree every time a template is referenced.
    pub dynamic_mapping: StaticDynamicNodeMapping,
}

/// A template that is created at run time.
#[derive(Debug, Clone, PartialEq)]
pub struct OwnedTemplate {
    /// The nodes in the template.
    pub nodes: OwnedTemplateNodes,
    /// The ids of the root nodes in the template.
    pub root_nodes: OwnedRootNodes,
    /// Any nodes that contain dynamic components. This is stored in the template to avoid
    /// traversing the tree every time a template is referenced.
    pub dynamic_mapping: OwnedDynamicNodeMapping,
}

/// A template used to skip diffing on some static parts of a user interface.
#[derive(Debug, Clone, PartialEq)]
pub enum Template {
    /// A template that is created at compile time.
    Static(&'static StaticTemplate),
    /// A template that is created at run time.
    Owned(OwnedTemplate),
}

/// The mathematical view of a [`Template`].
pub struct TemplateView {
    pub nodes: Seq<NodeView>,
    pub root_nodes: Seq<TemplateNodeId>,
    pub dynamic_mapping: MappingView,
}

impl View for StaticTemplate {
    type V = TemplateView;

    open spec fn view(&self) -> TemplateView {
        TemplateView {
            nodes: node_views(self.nodes@),
            root_nodes: self.root_nodes@,
            dynamic_mapping: self.dynamic_mapping@,
        }
    }
}

impl View for OwnedTemplate {
    type V = TemplateView;

    open spec fn view(&self) -> TemplateView {
        TemplateView {
            nodes: node_views(self.nodes@),
            root_nodes: self.root_nodes@,
            dynamic_mapping: self.dynamic_mapping@,
        }
    }
}

impl View for Template {
    type V = TemplateView;

    open spec fn view(&self) -> TemplateView {
        match self {
            Template::Static(template) => template@,
            Template::Owned(template) => template@,
        }
    }
}

impl Template {
    /// Hands the node with the given id to the function that fits the storage of the template.
    pub fn with_node<F1, F2, Ctx, R>(&self, id: TemplateNodeId, f1: F1, f2: F2, ctx: Ctx) -> (res:
        R) where
        F1: FnOnce(&StaticTemplateNode, Ctx) -> R,
        F2: FnOnce(&OwnedTemplateNode, Ctx) -> R,

        requires
            id.0 < self@.nodes.len(),
            match self {
                Template::Static(template) => f1.requires((&template.nodes@[id.0 as int], ctx)),
                Template::Owned(template) => f2.requires((&template.nodes@[id.0 as int], ctx)),
            },
        ensures
            match self {
                Template::Static(template) => f1.ensures((&template.nodes@[id.0 as int], ctx), res),
                Template::Owned(template) => f2.ensures((&template.nodes@[id.0 as int], ctx), res),
            },
    {
        match self {
            Template::Static(template) => f1(&template.nodes[id.0], ctx),
            Template::Owned(template) => f2(&template.nodes[id.0], ctx),
        }
    }

    /// Hands all nodes to the function that fits the storage of the template.
    pub fn with_nodes<'a, F1, F2, Ctx>(&'a self, f1: F1, f2: F2, ctx: Ctx) where
        F1: FnOnce(&'a &'static [StaticTemplateNode], Ctx),
        F2: FnOnce(&'a Vec<OwnedTemplateNode>, Ctx),

        requires
            match self {
                Template::Static(template) => f1.requires((&template.nodes, ctx)),
                Template::Owned(template) => f2.requires((&template.nodes, ctx)),
            },
        ensures
            match self {
                Template::Static(template) => f1.ensures((&template.nodes, ctx), ()),
                Template::Owned(template) => f2.ensures((&template.nodes, ctx), ()),
            },
    {
        match self {
            Template::Static(template) => f1(&template.nodes, ctx),
            Template::Owned(template) => f2(&template.nodes, ctx),
        }
    }

    /// All nodes that have a dynamic part.
    pub fn all_dynamic(&self) -> (res: Vec<TemplateNodeId>)
        ensures
            res@ == self@.dynamic_mapping.all_dynamic(),
    {
        match self {
            Template::Static(template) => template.dynamic_mapping.all_dynamic(),
            Template::Owned(template) => template.dynamic_mapping.all_dynamic(),
        }
    }

    /// The attributes that must be set every time: the node and the position among its attributes.
    pub fn volatile_attributes(&self) -> (res: &[(TemplateNodeId, usize)])
        ensures
            res@ == self@.dynamic_mapping.volatile_attributes,
    {
        match self {
            Template::Static(template) => template.dynamic_mapping.volatile_attributes,
            Template::Owned(template) => template.dynamic_mapping.volatile_attributes.as_slice(),
        }
    }

    /// The node that the dynamic node with the given index replaces.
    pub fn get_dynamic_nodes_for_node_index(&self, idx: usize) -> (res: Option<TemplateNodeId>)
        requires
            idx < self@.dynamic_mapping.nodes.len(),
        ensures
            res == self@.dynamic_mapping.nodes[idx as int],
    {
        match self {
            Template::Static(template) => template.dynamic_mapping.nodes[idx],
            Template::Owned(template) => template.dynamic_mapping.nodes[idx],
        }
    }

    /// The nodes that show the dynamic text with the given index.
    pub fn get_dynamic_nodes_for_text_index(&self, idx: usize) -> (res: &[TemplateNodeId])
        requires
            idx < self@.dynamic_mapping.text.len(),
        ensures
            res@ == self@.dynamic_mapping.text[idx as int],
    {
        match self {
            Template::Static(template) => template.dynamic_mapping.text[idx],
            Template::Owned(template) => template.dynamic_mapping.text[idx].as_slice(),
        }
    }

    /// The nodes that have the dynamic attribute with the given index, each with the position among
    /// its attributes.
    pub fn get_dynamic_nodes_for_attribute_index(&self, idx: usize) -> (res: &[(
        TemplateNodeId,
        usize,
    )])
        requires
            idx < self@.dynamic_mapping.attributes.len(),
        ensures
            res@ == self@.dynamic_mapping.attributes[idx as int],
    {
        match self {
            Template::Static(template) => template.dynamic_mapping.attributes[idx],
            Template::Owned(template) => template.dynamic_mapping.attributes[idx].as_slice(),
        }
    }
}

/// A message that asks for a template to be replaced.
#[derive(Debug, Clone)]
pub struct SetTemplateMsg(pub TemplateId, pub OwnedTemplate);

/// What a template says is what its parts hold, position by position, whichever way it is stored.
pub proof fn law_what_a_template_says(fixed: &'static StaticTemplate, owned: OwnedTemplate)
    ensures
        Template::Static(fixed)@ == fixed@,
        Template::Owned(owned)@ == owned@,
        fixed@.root_nodes == fixed.root_nodes@,
        owned@.root_nodes == owned.root_nodes@,
        fixed@.dynamic_mapping == fixed.dynamic_mapping@,
        owned@.dynamic_mapping == owned.dynamic_mapping@,
        fixed@.nodes.len() == fixed.nodes@.len(),
        owned@.nodes.len() == owned.nodes@.len(),
        forall|i: int|
            0 <= i < fixed.nodes@.len() ==> (#[trigger] fixed@.nodes[i]) == fixed.nodes@[i]@,
        forall|i: int|
            0 <= i < owned.nodes@.len() ==> (#[trigger] owned@.nodes[i]) == owned.nodes@[i]@,
{
}

/// What is looked up in a template is what its mapping holds under the index, whichever way the template
/// is stored.
pub proof fn law_what_is_looked_up(
    template: &Template,
    idx: usize,
    all: Vec<TemplateNodeId>,
    volatile: &[(TemplateNodeId, usize)],
    node: Option<TemplateNodeId>,
    text: &[TemplateNodeId],
    attributes: &[(TemplateNodeId, usize)],
)
    ensures
        call_ensures(Template::all_dynamic, (template,), all) ==> all@
            == template@.dynamic_mapping.all_dynamic(),
        call_ensures(Template::volatile_attributes, (template,), volatile) ==> volatile@
            == match template {
            Template::Static(fixed) => fixed.dynamic_mapping.volatile_attributes@,
            Template::Owned(owned) => owned.dynamic_mapping.volatile_attributes@,
        },
        idx < template@.dynamic_mapping.nodes.len() && call_ensures(
            Template::get_dynamic_nodes_for_node_index,
            (template, idx),
            node,
        ) ==> node == match template {
            Template::Static(fixed) => fixed.dynamic_mapping.nodes@[idx as int],
            Template::Owned(owned) => owned.dynamic_mapping.nodes@[idx as int],
        },
        idx < template@.dynamic_mapping.text.len() && call_ensures(
            Template::get_dynamic_nodes_for_text_index,
            (template, idx),
            text,
        ) ==> text@ == match template {
            Template::Static(fixed) => fixed.dynamic_mapping.text@[idx as int]@,
            Template::Owned(owned) => owned.dynamic_mapping.text@[idx as int]@,
        },
        idx < template@.dynamic_mapping.attributes.len() && call_ensures(
            Template::get_dynamic_nodes_for_attribute_index,
            (template, idx),
            attributes,
        ) ==> attributes@ == match template {
            Template::Static(fixed) => fixed.dynamic_mapping.attributes@[idx as int]@,
            Template::Owned(owned) => owned.dynamic_mapping.attributes@[idx as int]@,
        },
{
}

/// The node with the given id, and all nodes, are handed to the function that fits the storage of the
/// template.
pub proof fn law_what_is_handed_on<'a, F1, F2, G1, G2, Ctx, R>(
    template: &'a Template,
    id: TemplateNodeId,
    f1: F1,
    f2: F2,
    g1: G1,
    g2: G2,
    ctx: Ctx,
    res: R,
) where
    F1: FnOnce(&StaticTemplateNode, Ctx) -> R,
    F2: FnOnce(&OwnedTemplateNode, Ctx) -> R,
    G1: FnOnce(&'a &'static [StaticTemplateNode], Ctx),
    G2: FnOnce(&'a Vec<OwnedTemplateNode>, Ctx),

    ensures
        id.0 < template@.nodes.len() && call_ensures(
            Template::with_node::<F1, F2, Ctx, R>,
            (template, id, f1, f2, ctx),
            res,
        ) ==> match template {
            Template::Static(fixed) => f1.ensures((&fixed.nodes@[id.0 as int], ctx), res),
            Template::Owned(owned) => f2.ensures((&owned.nodes@[id.0 as int], ctx), res),
        },
        call_ensures(Template::with_nodes::<G1, G2, Ctx>, (template, g1, g2, ctx), ())
            ==> match template {
            Template::Static(fixed) => g1.ensures((&fixed.nodes, ctx), ()),
            Template::Owned(owned) => g2.ensures((&owned.nodes, ctx), ()),
        },
{
}

/// A value of the context can be looked up wherever the mapping has an entry for it.
pub proof fn law_what_can_be_looked_up(template: &Template, idx: usize)
    ensures
        idx < template@.dynamic_mapping.nodes.len() ==> call_requires(
            Template::get_dynamic_nodes_for_node_index,
            (template, idx),
        ),
        idx < template@.dynamic_mapping.text.len() ==> call_requires(
            Template::get_dynamic_nodes_for_text_index,
            (template, idx),
        ),
        idx < template@.dynamic_mapping.attributes.len() ==> call_requires(
            Template::get_dynamic_nodes_for_attribute_index,
            (template, idx),
        ),
{
}

} // verus!
