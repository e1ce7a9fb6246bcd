//! Creating a template in the renderer: the static parts of it, once and for all instances.
use bumpalo::Bump;
use vstd::prelude::*;

use crate::ids::{RendererTemplateId, TemplateNodeId};
use crate::least::{least, lemma_least};
use crate::mutations::{Attribute, EditView, Mutations};
use crate::node::{
    attribute_views, ElementView, NodeKindView, NodeView, TemplateAttribute, TemplateAttributeValue,
    TemplateAttributeValueView, TemplateAttributeView, TemplateElement, TemplateNode,
    TemplateNodeType, TextSegmentView, TextTemplateSegment,
};
use crate::storage::{AsSlice, AsText};
use crate::template::{Template, TemplateView};
use crate::value::{AttributeValue, TemplateValue};

verus! {

/// Below the node there are at most `depth` levels, and all children there are in the template.
pub open spec fn creatable_within(nodes: Seq<NodeView>, node: NodeView, depth: nat) -> bool
    decreases depth,
{
    forall|i: int|
        #![trigger node.kind.children()[i]]
        0 <= i < node.kind.children().len() ==> {
            &&& node.kind.children()[i].0 < nodes.len()
            &&& depth > 0
            &&& creatable_within(
                nodes,
                nodes[node.kind.children()[i].0 as int],
                (depth - 1) as nat,
            )
        }
}

/// The node is the root of a finite tree: no child is missing, and no node is below itself.
pub open spec fn creatable(nodes: Seq<NodeView>, node: NodeView) -> bool {
    exists|depth: nat| creatable_within(nodes, node, depth)
}

/// The node with the given id is there, and it is the root of a finite tree.
pub open spec fn id_creatable(nodes: Seq<NodeView>, id: TemplateNodeId) -> bool {
    id.0 < nodes.len() && creatable(nodes, nodes[id.0 as int])
}

impl TemplateView {
    /// The template is made of finite trees, and its roots can be counted.
    pub open spec fn creatable(self) -> bool {
        self.nodes.len() > 0 ==> {
            &&& self.root_nodes.len() <= i32::MAX
            &&& forall|i: int|
                0 <= i < self.root_nodes.len() ==> id_creatable(
                    self.nodes,
                    #[trigger] self.root_nodes[i],
                )
        }
    }
}

/// The edits that set the static attributes of a node.
pub open spec fn static_attribute_edits(
    attributes: Seq<TemplateAttributeView>,
    id: TemplateNodeId,
) -> Seq<EditView>
    decreases attributes.len(),
{
    if attributes.len() == 0 {
        Seq::empty()
    } else {
        let before = static_attribute_edits(attributes.drop_last(), id);
        match attributes.last().value {
            TemplateAttributeValueView::Static(value) => before.push(
                EditView::SetAttribute {
                    attribute: attributes.last().attribute,
                    value,
                    is_static: true,
                    id,
                },
            ),
            TemplateAttributeValueView::Dynamic(_) => before,
        }
    }
}

/// The text that a text node is created with. Only a text that is one static segment is known in
/// advance; any other starts out empty.
pub open spec fn initial_text(segments: Seq<TextSegmentView>) -> Seq<char> {
    if segments.len() == 1 {
        match segments[0] {
            TextSegmentView::Static(text) => text,
            TextSegmentView::Dynamic(_) => Seq::empty(),
        }
    } else {
        Seq::empty()
    }
}

/// The edits that create a node, from what those for its children are.
pub open spec fn edits_around_children(node: NodeView, children: Seq<EditView>) -> Seq<EditView> {
    match node.kind {
        NodeKindView::Element(element) => seq![
            EditView::CreateElementTemplate {
                tag: element.tag,
                namespace: element.namespace,
                id: node.id,
                locally_static: node.locally_static,
                fully_static: node.fully_static,
            },
        ] + static_attribute_edits(element.attributes, node.id) + children + seq![
            EditView::AppendChildren { count: element.children.len() },
        ],
        NodeKindView::Text(segments) => seq![
            EditView::CreateTextNodeTemplate {
                text: initial_text(segments),
                id: node.id,
                locally_static: node.locally_static,
            },
        ],
        NodeKindView::DynamicNode(_) => seq![
            EditView::CreatePlaceholderTemplate { id: node.id },
        ],
    }
}

/// The edits that create a node and `depth` levels below it.
spec fn node_edits_within(nodes: Seq<NodeView>, node: NodeView, depth: nat) -> Seq<EditView>
    decreases depth, 1nat, 0nat,
{
    edits_around_children(node, sibling_edits_within(nodes, node.kind.children(), depth))
}

/// The edits that create nodes one after the other, `depth - 1` levels below each.
spec fn sibling_edits_within(
    nodes: Seq<NodeView>,
    ids: Seq<TemplateNodeId>,
    depth: nat,
) -> Seq<EditView>
    decreases depth, 0nat, ids.len(),
{
    if ids.len() == 0 || depth == 0 {
        Seq::empty()
    } else {
        sibling_edits_within(nodes, ids.drop_last(), depth) + node_edits_within(
            nodes,
            nodes[ids.last().0 as int],
            (depth - 1) as nat,
        )
    }
}

/// How many levels there are below a node.
pub closed spec fn height(nodes: Seq<NodeView>, node: NodeView) -> nat {
    least(|depth: nat| creatable_within(nodes, node, depth))
}

/// The edits that create a node and everything below it, the children before they are appended.
pub closed spec fn node_edits(nodes: Seq<NodeView>, node: NodeView) -> Seq<EditView> {
    node_edits_within(nodes, node, height(nodes, node))
}

/// The edits that create nodes one after the other.
pub open spec fn sibling_edits(nodes: Seq<NodeView>, ids: Seq<TemplateNodeId>) -> Seq<EditView>
    decreases ids.len(),
{
    if ids.len() == 0 {
        Seq::empty()
    } else {
        sibling_edits(nodes, ids.drop_last()) + node_edits(nodes, nodes[ids.last().0 as int])
    }
}

/// The edits that create a template.
pub open spec fn template_edits(template: TemplateView, id: RendererTemplateId) -> Seq<EditView> {
    let roots = if template.nodes.len() == 0 {
        Seq::empty()
    } else {
        template.root_nodes
    };
    seq![EditView::CreateTemplate { template: id }] + sibling_edits(template.nodes, roots) + seq![
        EditView::FinishTemplate { len: roots.len() },
    ]
}

proof fn lemma_height(nodes: Seq<NodeView>, node: NodeView, depth: nat)
    requires
        creatable_within(nodes, node, depth),
    ensures
        creatable_within(nodes, node, height(nodes, node)),
        height(nodes, node) <= depth,
{
    let within = |depth: nat| creatable_within(nodes, node, depth);
    assert(within(depth));
    lemma_least(within, depth);
}

/// A child is the root of a finite tree too, and that tree is lower.
pub proof fn lemma_height_of_child(nodes: Seq<NodeView>, node: NodeView, i: int)
    requires
        creatable(nodes, node),
        0 <= i < node.kind.children().len(),
    ensures
        id_creatable(nodes, node.kind.children()[i]),
        height(nodes, nodes[node.kind.children()[i].0 as int]) < height(nodes, node),
{
    lemma_height(nodes, node, choose|depth: nat| creatable_within(nodes, node, depth));
    let child = nodes[node.kind.children()[i].0 as int];
    lemma_height(nodes, child, (height(nodes, node) - 1) as nat);
}

/// Looking further down than the tree goes changes nothing.
proof fn lemma_node_edits_within(nodes: Seq<NodeView>, node: NodeView, d1: nat, d2: nat)
    requires
        creatable_within(nodes, node, d1),
        creatable_within(nodes, node, d2),
    ensures
        node_edits_within(nodes, node, d1) == node_edits_within(nodes, node, d2),
    decreases d1, 1nat, 0nat,
{
    lemma_sibling_edits_within(nodes, node, node.kind.children().len(), d1, d2);
    assert(node.kind.children().take(node.kind.children().len() as int) =~= node.kind.children());
}

proof fn lemma_sibling_edits_within(
    nodes: Seq<NodeView>,
    node: NodeView,
    n: nat,
    d1: nat,
    d2: nat,
)
    requires
        creatable_within(nodes, node, d1),
        creatable_within(nodes, node, d2),
        n <= node.kind.children().len(),
    ensures
        sibling_edits_within(nodes, node.kind.children().take(n as int), d1)
            == sibling_edits_within(nodes, node.kind.children().take(n as int), d2),
    decreases d1, 0nat, n,
{
    if n > 0 {
        let ids = node.kind.children().take(n as int);
        assert(ids.drop_last() =~= node.kind.children().take(n - 1));
        assert(ids.last() == node.kind.children()[n - 1]);
        lemma_sibling_edits_within(nodes, node, (n - 1) as nat, d1, d2);
        lemma_node_edits_within(
            nodes,
            nodes[ids.last().0 as int],
            (d1 - 1) as nat,
            (d2 - 1) as nat,
        );
    }
}

proof fn lemma_siblings_of_finite_height(nodes: Seq<NodeView>, node: NodeView, n: nat, depth: nat)
    requires
        creatable_within(nodes, node, depth),
        n <= node.kind.children().len(),
    ensures
        sibling_edits_within(nodes, node.kind.children().take(n as int), depth) == sibling_edits(
            nodes,
            node.kind.children().take(n as int),
        ),
    decreases n,
{
    if n > 0 {
        let ids = node.kind.children().take(n as int);
        assert(ids.drop_last() =~= node.kind.children().take(n - 1));
        assert(ids.last() == node.kind.children()[n - 1]);
        lemma_siblings_of_finite_height(nodes, node, (n - 1) as nat, depth);
        let child = nodes[ids.last().0 as int];
        lemma_height(nodes, child, (depth - 1) as nat);
        lemma_node_edits_within(nodes, child, (depth - 1) as nat, height(nodes, child));
    }
}

/// The edits that create a node are those around the edits that create its children.
pub proof fn law_node_edits(nodes: Seq<NodeView>, node: NodeView)
    requires
        creatable(nodes, node),
    ensures
        node_edits(nodes, node) == edits_around_children(
            node,
            sibling_edits(nodes, node.kind.children()),
        ),
{
    lemma_height(nodes, node, choose|depth: nat| creatable_within(nodes, node, depth));
    lemma_siblings_of_finite_height(
        nodes,
        node,
        node.kind.children().len(),
        height(nodes, node),
    );
    assert(node.kind.children().take(node.kind.children().len() as int) =~= node.kind.children());
}

/// Sets the static attributes of a node.
fn set_static_attributes<'b, V: TemplateValue>(
    attributes: &[TemplateAttribute<V>],
    mutations: &mut Mutations<'b>,
    bump: &'b Bump,
    id: TemplateNodeId,
)
    ensures
        final(mutations)@ == old(mutations)@ + static_attribute_edits(
            attribute_views(attributes@),
            id,
        ),
{
    let ghost views = attribute_views(attributes@);
    let mut i: usize = 0;
    assert(mutations@ =~= old(mutations)@ + static_attribute_edits(views.take(0), id));
    while i < attributes.len()
        invariant
            i <= attributes.len(),
            views == attribute_views(attributes@),
            mutations@ == old(mutations)@ + static_attribute_edits(views.take(i as int), id),
        decreases attributes.len() - i,
    {
        assert(views.take(i + 1).drop_last() =~= views.take(i as int));
        assert(views.take(i + 1).last() == attributes@[i as int]@);
        let attr: &TemplateAttribute<V> = &attributes[i];
        if let TemplateAttributeValue::Static(val) = &attr.value {
            let val: AttributeValue<'b> = val.allocate(bump);
            let attribute = Attribute { attribute: attr.attribute, is_static: true, value: val };
            mutations.set_attribute(bump.alloc(attribute), id);
        }
        i += 1;
        assert(mutations@ =~= old(mutations)@ + static_attribute_edits(views.take(i as int), id));
    }
    assert(views.take(i as int) =~= views);
}

/// Creates a node of the template and everything below it.
fn create_node_inner<'b, Attributes, V, Children, Listeners, TextSegments, Text>(
    node: &TemplateNode<Attributes, V, Children, Listeners, TextSegments, Text>,
    mutations: &mut Mutations<'b>,
    bump: &'b Bump,
    template: &Template,
    Ghost(view): Ghost<NodeView>,
) where
    Attributes: AsSlice<TemplateAttribute<V>>,
    V: TemplateValue,
    Children: AsSlice<TemplateNodeId>,
    Listeners: AsSlice<usize>,
    TextSegments: AsSlice<TextTemplateSegment<Text>>,
    Text: AsText,

    requires
        view == node@,
        creatable(template@.nodes, view),
    ensures
        final(mutations)@ == old(mutations)@ + node_edits(template@.nodes, view),
    decreases height(template@.nodes, view), 0nat,
{
    let ghost nodes = template@.nodes;
    proof {
        law_node_edits(nodes, view);
    }
    let id = node.id;
    let locally_static = node.locally_static;
    let fully_static = node.fully_static;
    match &node.node_type {
        TemplateNodeType::Element(el) => {
            let TemplateElement { tag, namespace, attributes, children, .. } = el;
            mutations.create_element_template(tag, *namespace, id, locally_static, fully_static);
            set_static_attributes(attributes.as_slice(), mutations, bump, id);
            let ghost before = mutations@;
            let children: &[TemplateNodeId] = children.as_slice();
            let mut children_created: usize = 0;
            assert(mutations@ =~= before + sibling_edits(nodes, children@.take(0)));
            while children_created < children.len()
                invariant
                    children_created <= children.len(),
                    children@ == view.kind.children(),
                    nodes == template@.nodes,
                    creatable(nodes, view),
                    mutations@ == before + sibling_edits(
                        nodes,
                        children@.take(children_created as int),
                    ),
                decreases children.len() - children_created,
            {
                let ghost next = children@.take(children_created + 1);
                assert(next.drop_last() =~= children@.take(children_created as int));
                proof {
                    lemma_height_of_child(nodes, view, children_created as int);
                }
                template.create_node(mutations, bump, children[children_created]);
                children_created += 1;
                assert(mutations@ =~= before + sibling_edits(nodes, next));
            }
            assert(children@.take(children_created as int) =~= children@);
            mutations.append_children(children_created);
            assert(mutations@ =~= old(mutations)@ + node_edits(nodes, view));
        },
        TemplateNodeType::Text(text) => {
            let segments: &[TextTemplateSegment<Text>] = text.segments.as_slice();
            if segments.len() == 1 {
                match &segments[0] {
                    TextTemplateSegment::Static(txt) => mutations.create_text_node_template(
                        bump.alloc_str(txt.as_text()),
                        id,
                        locally_static,
                    ),
                    TextTemplateSegment::Dynamic(_) => mutations.create_text_node_template(
                        "",
                        id,
                        locally_static,
                    ),
                }
            } else {
                mutations.create_text_node_template("", id, locally_static);
            }
            proof {
                reveal_strlit("");
            }
            assert(""@ =~= Seq::<char>::empty());
            assert(mutations@ =~= old(mutations)@ + node_edits(nodes, view));
        },
        TemplateNodeType::DynamicNode(_) => {
            mutations.create_placeholder_template(id);
            assert(mutations@ =~= old(mutations)@ + node_edits(nodes, view));
        },
    }
}

impl Template {
    /// Creates the template in the renderer under the id `id`. The values that the edits refer to
    /// are allocated in `bump`.
    pub fn create<'b>(
        &self,
        mutations: &mut Mutations<'b>,
        bump: &'b Bump,
        id: RendererTemplateId,
    )
        requires
            self@.creatable(),
        ensures
            final(mutations)@ == old(mutations)@ + template_edits(self@, id),
    {
        mutations.create_templete(id);
        let empty = match self {
            Template::Static(template) => template.nodes.len() == 0,
            Template::Owned(template) => template.nodes.len() == 0,
        };
        let ghost nodes = self@.nodes;
        let ghost before = mutations@;
        let mut len: usize = 0;
        if !empty {
            let roots: &[TemplateNodeId] = match self {
                Template::Static(template) => template.root_nodes,
                Template::Owned(template) => template.root_nodes.as_slice(),
            };
            assert(mutations@ =~= before + sibling_edits(nodes, roots@.take(0)));
            while len < roots.len()
                invariant
                    len <= roots.len(),
                    roots@ == self@.root_nodes,
                    nodes == self@.nodes,
                    nodes.len() > 0,
                    self@.creatable(),
                    mutations@ == before + sibling_edits(nodes, roots@.take(len as int)),
                decreases roots.len() - len,
            {
                let ghost next = roots@.take(len + 1);
                assert(next.drop_last() =~= roots@.take(len as int));
                self.create_node(mutations, bump, roots[len]);
                len += 1;
                assert(mutations@ =~= before + sibling_edits(nodes, next));
            }
            assert(roots@.take(len as int) =~= roots@);
        } else {
            assert(mutations@ =~= before + sibling_edits(nodes, Seq::empty()));
        }
        mutations.finish_templete(len as u32);
        assert(mutations@ =~= old(mutations)@ + template_edits(self@, id));
    }

    /// Creates the node with the id `id`, and everything below it, in the renderer.
    pub fn create_node<'b>(
        &self,
        mutations: &mut Mutations<'b>,
        bump: &'b Bump,
        id: TemplateNodeId,
    )
        requires
            id_creatable(self@.nodes, id),
        ensures
            final(mutations)@ == old(mutations)@ + node_edits(
                self@.nodes,
                self@.nodes[id.0 as int],
            ),
        decreases height(self@.nodes, self@.nodes[id.0 as int]), 1nat,
    {
        match self {
            Template::Static(template) => create_node_inner(
                &template.nodes[id.0],
                mutations,
                bump,
                self,
                Ghost(self@.nodes[id.0 as int]),
            ),
            Template::Owned(template) => create_node_inner(
                &template.nodes[id.0],
                mutations,
                bump,
                self,
                Ghost(self@.nodes[id.0 as int]),
            ),
        }
    }
}

/// How many nodes are on the renderer's stack after an edit, where there were `size` before. `None`
/// where the edit asks for nodes that are not there.
pub open spec fn stack_size_after_edit(size: nat, edit: EditView) -> Option<nat> {
    match edit {
        EditView::CreateElementTemplate { .. }
        | EditView::CreateTextNodeTemplate { .. }
        | EditView::CreatePlaceholderTemplate { .. } => Some(size + 1),
        EditView::AppendChildren { count } => if count < size {
            Some((size - count) as nat)
        } else {
            None
        },
        EditView::FinishTemplate { len } => if len <= size {
            Some((size - len) as nat)
        } else {
            None
        },
        EditView::ReplaceWith { created, .. } => if created <= size {
            Some((size - created) as nat)
        } else {
            None
        },
        _ => Some(size),
    }
}

/// How many nodes are on the renderer's stack after a list of edits.
pub open spec fn stack_size_after(size: nat, edits: Seq<EditView>) -> Option<nat>
    decreases edits.len(),
{
    if edits.len() == 0 {
        Some(size)
    } else {
        match stack_size_after(size, edits.drop_last()) {
            Some(before) => stack_size_after_edit(before, edits.last()),
            None => None,
        }
    }
}

proof fn lemma_stack_size_after_concat(size: nat, a: Seq<EditView>, b: Seq<EditView>)
    ensures
        stack_size_after(size, a + b) == match stack_size_after(size, a) {
            Some(between) => stack_size_after(between, b),
            None => None,
        },
    decreases b.len(),
{
    if b.len() == 0 {
        assert(a + b =~= a);
    } else {
        assert((a + b).drop_last() =~= a + b.drop_last());
        lemma_stack_size_after_concat(size, a, b.drop_last());
    }
}

proof fn lemma_stack_size_after_one(size: nat, edit: EditView)
    ensures
        stack_size_after(size, seq![edit]) == stack_size_after_edit(size, edit),
{
    assert(seq![edit].drop_last() =~= Seq::empty());
    assert(stack_size_after(size, seq![edit].drop_last()) == Some(size));
}

proof fn lemma_stack_size_after_attributes(
    size: nat,
    attributes: Seq<TemplateAttributeView>,
    id: TemplateNodeId,
)
    ensures
        stack_size_after(size, static_attribute_edits(attributes, id)) == Some(size),
    decreases attributes.len(),
{
    if attributes.len() > 0 {
        lemma_stack_size_after_attributes(size, attributes.drop_last(), id);
        let edits = static_attribute_edits(attributes, id);
        let before = static_attribute_edits(attributes.drop_last(), id);
        if attributes.last().value is Static {
            assert(edits.drop_last() =~= before);
        }
    }
}

/// To create a node, with everything below it, leaves that one node on the renderer's stack, and
/// does not touch what was there before.
pub proof fn law_creating_a_node_leaves_one_node(nodes: Seq<NodeView>, node: NodeView, size: nat)
    requires
        creatable(nodes, node),
    ensures
        stack_size_after(size, node_edits(nodes, node)) == Some(size + 1),
    decreases height(nodes, node), 1nat, 0nat,
{
    law_node_edits(nodes, node);
    let ids = node.kind.children();
    let children = sibling_edits(nodes, ids);
    match node.kind {
        NodeKindView::Element(element) => {
            let create = EditView::CreateElementTemplate {
                tag: element.tag,
                namespace: element.namespace,
                id: node.id,
                locally_static: node.locally_static,
                fully_static: node.fully_static,
            };
            let attributes = static_attribute_edits(element.attributes, node.id);
            let append = EditView::AppendChildren { count: element.children.len() };
            lemma_stack_size_after_one(size, create);
            lemma_stack_size_after_concat(size, seq![create], attributes);
            lemma_stack_size_after_attributes(size + 1, element.attributes, node.id);
            lemma_stack_size_after_concat(size, seq![create] + attributes, children);
            lemma_stack_size_after_children(nodes, node, ids.len(), size + 1);
            assert(ids.take(ids.len() as int) =~= ids);
            lemma_stack_size_after_concat(
                size,
                seq![create] + attributes + children,
                seq![append],
            );
            lemma_stack_size_after_one(size + 1 + ids.len(), append);
        },
        NodeKindView::Text(segments) => {
            lemma_stack_size_after_one(size, node_edits(nodes, node)[0]);
        },
        NodeKindView::DynamicNode(_) => {
            lemma_stack_size_after_one(size, node_edits(nodes, node)[0]);
        },
    }
}

proof fn lemma_stack_size_after_children(
    nodes: Seq<NodeView>,
    node: NodeView,
    n: nat,
    size: nat,
)
    requires
        creatable(nodes, node),
        n <= node.kind.children().len(),
    ensures
        stack_size_after(size, sibling_edits(nodes, node.kind.children().take(n as int))) == Some(
            size + n,
        ),
    decreases height(nodes, node), 0nat, n,
{
    if n > 0 {
        let ids = node.kind.children().take(n as int);
        assert(ids.drop_last() =~= node.kind.children().take(n - 1));
        assert(ids.last() == node.kind.children()[n - 1]);
        lemma_height_of_child(nodes, node, n - 1);
        lemma_stack_size_after_children(nodes, node, (n - 1) as nat, size);
        let child = nodes[ids.last().0 as int];
        law_creating_a_node_leaves_one_node(nodes, child, (size + n - 1) as nat);
        lemma_stack_size_after_concat(
            size,
            sibling_edits(nodes, ids.drop_last()),
            node_edits(nodes, child),
        );
    }
}

/// To create a template uses up exactly the nodes that it created: what the last edit takes from the
/// renderer's stack as the roots is what the edits before it left there.
pub proof fn law_creating_a_template_leaves_nothing(
    template: TemplateView,
    id: RendererTemplateId,
    size: nat,
)
    requires
        template.creatable(),
    ensures
        stack_size_after(size, template_edits(template, id)) == Some(size),
{
    let roots = if template.nodes.len() == 0 {
        Seq::empty()
    } else {
        template.root_nodes
    };
    let first = EditView::CreateTemplate { template: id };
    let last = EditView::FinishTemplate { len: roots.len() };
    let middle = sibling_edits(template.nodes, roots);
    lemma_stack_size_after_one(size, first);
    lemma_stack_size_after_concat(size, seq![first], middle);
    lemma_stack_size_after_roots(template.nodes, roots, size);
    lemma_stack_size_after_concat(size, seq![first] + middle, seq![last]);
    lemma_stack_size_after_one(size + roots.len(), last);
}

proof fn lemma_stack_size_after_roots(
    nodes: Seq<NodeView>,
    roots: Seq<TemplateNodeId>,
    size: nat,
)
    requires
        forall|i: int| 0 <= i < roots.len() ==> id_creatable(nodes, #[trigger] roots[i]),
    ensures
        stack_size_after(size, sibling_edits(nodes, roots)) == Some(size + roots.len()),
    decreases roots.len(),
{
    if roots.len() > 0 {
        let before = roots.drop_last();
        assert(forall|i: int| 0 <= i < before.len() ==> #[trigger] before[i] == roots[i]);
        assert(id_creatable(nodes, roots[roots.len() - 1]));
        lemma_stack_size_after_roots(nodes, before, size);
        let root = nodes[roots.last().0 as int];
        law_creating_a_node_leaves_one_node(nodes, root, size + before.len());
        lemma_stack_size_after_concat(size, sibling_edits(nodes, before), node_edits(nodes, root));
    }
}

/// The edit says nothing that depends on the dynamic context.
pub open spec fn is_static_edit(edit: EditView) -> bool {
    match edit {
        EditView::CreateTemplate { .. }
        | EditView::FinishTemplate { .. }
        | EditView::CreateElementTemplate { .. }
        | EditView::CreateTextNodeTemplate { .. }
        | EditView::CreatePlaceholderTemplate { .. }
        | EditView::AppendChildren { .. } => true,
        EditView::SetAttribute { is_static, .. } => is_static,
        _ => false,
    }
}

/// All edits of the list are static.
pub open spec fn all_static_edits(edits: Seq<EditView>) -> bool {
    forall|i: int| 0 <= i < edits.len() ==> is_static_edit(#[trigger] edits[i])
}

proof fn lemma_attribute_edits_are_static(
    attributes: Seq<TemplateAttributeView>,
    id: TemplateNodeId,
)
    ensures
        all_static_edits(static_attribute_edits(attributes, id)),
    decreases attributes.len(),
{
    if attributes.len() > 0 {
        lemma_attribute_edits_are_static(attributes.drop_last(), id);
    }
}

/// To create a node sends only what the template says by itself. Dynamic attributes, dynamic text and
/// listeners wait for an instance to be hydrated.
pub proof fn law_creating_a_node_is_static(nodes: Seq<NodeView>, node: NodeView)
    requires
        creatable(nodes, node),
    ensures
        all_static_edits(node_edits(nodes, node)),
    decreases height(nodes, node), 1nat, 0nat,
{
    law_node_edits(nodes, node);
    match node.kind {
        NodeKindView::Element(element) => {
            lemma_attribute_edits_are_static(element.attributes, node.id);
            let ids = node.kind.children();
            lemma_children_edits_are_static(nodes, node, ids.len());
            assert(ids.take(ids.len() as int) =~= ids);
        },
        _ => {},
    }
}

proof fn lemma_children_edits_are_static(nodes: Seq<NodeView>, node: NodeView, n: nat)
    requires
        creatable(nodes, node),
        n <= node.kind.children().len(),
    ensures
        all_static_edits(sibling_edits(nodes, node.kind.children().take(n as int))),
    decreases height(nodes, node), 0nat, n,
{
    if n > 0 {
        let ids = node.kind.children().take(n as int);
        assert(ids.drop_last() =~= node.kind.children().take(n - 1));
        assert(ids.last() == node.kind.children()[n - 1]);
        lemma_height_of_child(nodes, node, n - 1);
        lemma_children_edits_are_static(nodes, node, (n - 1) as nat);
        law_creating_a_node_is_static(nodes, nodes[ids.last().0 as int]);
    }
}

/// To create a template sends only what the template says by itself.
pub proof fn law_creating_a_template_is_static(template: TemplateView, id: RendererTemplateId)
    requires
        template.creatable(),
    ensures
        all_static_edits(template_edits(template, id)),
{
    let roots = if template.nodes.len() == 0 {
        Seq::empty()
    } else {
        template.root_nodes
    };
    lemma_root_edits_are_static(template.nodes, roots);
}

proof fn lemma_root_edits_are_static(nodes: Seq<NodeView>, roots: Seq<TemplateNodeId>)
    requires
        forall|i: int| 0 <= i < roots.len() ==> id_creatable(nodes, #[trigger] roots[i]),
    ensures
        all_static_edits(sibling_edits(nodes, roots)),
    decreases roots.len(),
{
    if roots.len() > 0 {
        let before = roots.drop_last();
        assert(forall|i: int| 0 <= i < before.len() ==> #[trigger] before[i] == roots[i]);
        assert(id_creatable(nodes, roots[roots.len() - 1]));
        lemma_root_edits_are_static(nodes, before);
        law_creating_a_node_is_static(nodes, nodes[roots.last().0 as int]);
    }
}

/// The node and all nodes below it in preorder: the node itself, then each child in turn with
/// everything below it.
pub open spec fn preorder(nodes: Seq<NodeView>, node: NodeView) -> Seq<NodeView>
    decreases height(nodes, node), 1nat, 0nat,
{
    seq![node] + preorder_below(nodes, node, node.kind.children().len())
}

/// The first `n` children of a node, each with everything below it, in preorder.
pub open spec fn preorder_below(nodes: Seq<NodeView>, node: NodeView, n: nat) -> Seq<NodeView>
    decreases height(nodes, node), 0nat, n,
{
    if creatable(nodes, node) && 0 < n <= node.kind.children().len() {
        proof {
            lemma_height_of_child(nodes, node, n - 1);
        }
        preorder_below(nodes, node, (n - 1) as nat) + preorder(
            nodes,
            nodes[node.kind.children()[n - 1].0 as int],
        )
    } else {
        Seq::empty()
    }
}

/// Some nodes one after the other, each with everything below it, in preorder.
pub open spec fn preorder_of_all(nodes: Seq<NodeView>, ids: Seq<TemplateNodeId>) -> Seq<NodeView>
    decreases ids.len(),
{
    if ids.len() == 0 {
        Seq::empty()
    } else {
        preorder_of_all(nodes, ids.drop_last()) + preorder(nodes, nodes[ids.last().0 as int])
    }
}

/// The edit that creates a node by itself.
pub open spec fn creation_edit(node: NodeView) -> EditView {
    edits_around_children(node, Seq::empty()).first()
}

/// The edits that create one node each, for some nodes.
pub open spec fn creation_edits(nodes: Seq<NodeView>) -> Seq<EditView> {
    Seq::new(nodes.len(), |i: int| creation_edit(nodes[i]))
}

/// Those edits of a list that create a node.
pub open spec fn creations(edits: Seq<EditView>) -> Seq<EditView>
    decreases edits.len(),
{
    if edits.len() == 0 {
        Seq::empty()
    } else {
        match edits.last() {
            EditView::CreateElementTemplate { .. }
            | EditView::CreateTextNodeTemplate { .. }
            | EditView::CreatePlaceholderTemplate { .. } => creations(edits.drop_last()).push(
                edits.last(),
            ),
            _ => creations(edits.drop_last()),
        }
    }
}

proof fn lemma_creations_of_concat(a: Seq<EditView>, b: Seq<EditView>)
    ensures
        creations(a + b) == creations(a) + creations(b),
    decreases b.len(),
{
    if b.len() == 0 {
        assert(a + b =~= a);
        assert(creations(a) + creations(b) =~= creations(a));
    } else {
        assert((a + b).drop_last() =~= a + b.drop_last());
        lemma_creations_of_concat(a, b.drop_last());
        assert(creations(a + b) =~= creations(a) + creations(b));
    }
}

proof fn lemma_creations_of_one(edit: EditView)
    ensures
        creations(seq![edit]) == if edit is CreateElementTemplate || edit is CreateTextNodeTemplate
            || edit is CreatePlaceholderTemplate {
            seq![edit]
        } else {
            Seq::empty()
        },
{
    assert(seq![edit].drop_last() =~= Seq::empty());
    assert(creations(seq![edit].drop_last()) =~= Seq::empty());
    assert(Seq::<EditView>::empty().push(edit) =~= seq![edit]);
}

proof fn lemma_creations_of_attributes(
    attributes: Seq<TemplateAttributeView>,
    id: TemplateNodeId,
)
    ensures
        creations(static_attribute_edits(attributes, id)) == Seq::<EditView>::empty(),
    decreases attributes.len(),
{
    if attributes.len() > 0 {
        lemma_creations_of_attributes(attributes.drop_last(), id);
        if attributes.last().value is Static {
            assert(static_attribute_edits(attributes, id).drop_last() =~= static_attribute_edits(
                attributes.drop_last(),
                id,
            ));
        }
    }
}

/// To create a node sends the edits that create it and the nodes below it in preorder, one for each.
pub proof fn law_nodes_are_created_in_preorder(nodes: Seq<NodeView>, node: NodeView)
    requires
        creatable(nodes, node),
    ensures
        creations(node_edits(nodes, node)) == creation_edits(preorder(nodes, node)),
    decreases height(nodes, node), 1nat, 0nat,
{
    law_node_edits(nodes, node);
    let ids = node.kind.children();
    let below = preorder_below(nodes, node, ids.len());
    let own = seq![creation_edit(node)];
    lemma_creations_of_one(creation_edit(node));
    match node.kind {
        NodeKindView::Element(element) => {
            let attributes = static_attribute_edits(element.attributes, node.id);
            let children = sibling_edits(nodes, ids);
            let append = EditView::AppendChildren { count: element.children.len() };
            lemma_children_are_created_in_preorder(nodes, node, ids.len());
            assert(ids.take(ids.len() as int) =~= ids);
            lemma_creations_of_attributes(element.attributes, node.id);
            lemma_creations_of_one(append);
            lemma_creations_of_concat(own, attributes);
            lemma_creations_of_concat(own + attributes, children);
            lemma_creations_of_concat(own + attributes + children, seq![append]);
        },
        _ => {
            assert(node_edits(nodes, node) =~= own);
            assert(below.len() == 0);
        },
    }
    assert(creations(node_edits(nodes, node)) =~= own + creation_edits(below));
    assert(creation_edits(preorder(nodes, node)) =~= own + creation_edits(below));
}

proof fn lemma_children_are_created_in_preorder(nodes: Seq<NodeView>, node: NodeView, n: nat)
    requires
        creatable(nodes, node),
        n <= node.kind.children().len(),
    ensures
        creations(sibling_edits(nodes, node.kind.children().take(n as int))) == creation_edits(
            preorder_below(nodes, node, n),
        ),
    decreases height(nodes, node), 0nat, n,
{
    if n > 0 {
        let ids = node.kind.children().take(n as int);
        assert(ids.drop_last() =~= node.kind.children().take(n - 1));
        assert(ids.last() == node.kind.children()[n - 1]);
        lemma_height_of_child(nodes, node, n - 1);
        lemma_children_are_created_in_preorder(nodes, node, (n - 1) as nat);
        let child = nodes[ids.last().0 as int];
        law_nodes_are_created_in_preorder(nodes, child);
        lemma_creations_of_concat(
            sibling_edits(nodes, ids.drop_last()),
            node_edits(nodes, child),
        );
        assert(creation_edits(preorder_below(nodes, node, n)) =~= creation_edits(
            preorder_below(nodes, node, (n - 1) as nat),
        ) + creation_edits(preorder(nodes, child)));
    } else {
        assert(creation_edits(preorder_below(nodes, node, n)) =~= Seq::empty());
    }
}

/// To create a template sends the edits that create its nodes in preorder, root after root, one for
/// each time that a node is reached. A template without nodes creates none.
pub proof fn law_a_template_is_created_in_preorder(template: TemplateView, id: RendererTemplateId)
    requires
        template.creatable(),
    ensures
        creations(template_edits(template, id)) == if template.nodes.len() == 0 {
            Seq::empty()
        } else {
            creation_edits(preorder_of_all(template.nodes, template.root_nodes))
        },
{
    let roots = if template.nodes.len() == 0 {
        Seq::empty()
    } else {
        template.root_nodes
    };
    let first = EditView::CreateTemplate { template: id };
    let last = EditView::FinishTemplate { len: roots.len() };
    let middle = sibling_edits(template.nodes, roots);
    lemma_creations_of_one(first);
    lemma_creations_of_one(last);
    lemma_creations_of_concat(seq![first], middle);
    lemma_creations_of_concat(seq![first] + middle, seq![last]);
    lemma_roots_are_created_in_preorder(template.nodes, roots);
    assert(creations(template_edits(template, id)) =~= creations(middle));
    if template.nodes.len() == 0 {
        assert(creations(middle) =~= Seq::empty());
    }
}

proof fn lemma_roots_are_created_in_preorder(nodes: Seq<NodeView>, roots: Seq<TemplateNodeId>)
    requires
        forall|i: int| 0 <= i < roots.len() ==> id_creatable(nodes, #[trigger] roots[i]),
    ensures
        creations(sibling_edits(nodes, roots)) == creation_edits(preorder_of_all(nodes, roots)),
    decreases roots.len(),
{
    if roots.len() > 0 {
        let before = roots.drop_last();
        assert(forall|i: int| 0 <= i < before.len() ==> #[trigger] before[i] == roots[i]);
        assert(id_creatable(nodes, roots[roots.len() - 1]));
        lemma_roots_are_created_in_preorder(nodes, before);
        let root = nodes[roots.last().0 as int];
        law_nodes_are_created_in_preorder(nodes, root);
        lemma_creations_of_concat(sibling_edits(nodes, before), node_edits(nodes, root));
        assert(creation_edits(preorder_of_all(nodes, roots)) =~= creation_edits(
            preorder_of_all(nodes, before),
        ) + creation_edits(preorder(nodes, root)));
    } else {
        assert(creation_edits(preorder_of_all(nodes, roots)) =~= Seq::empty());
    }
}

proof fn lemma_static_attributes_in_order(
    attributes: Seq<TemplateAttributeView>,
    id: TemplateNodeId,
    is_static: spec_fn(TemplateAttributeView) -> bool,
)
    requires
        forall|a: TemplateAttributeView| #[trigger] is_static(a) == (a.value is Static),
    ensures
        static_attribute_edits(attributes, id) == attributes.filter(is_static).map_values(
            |a: TemplateAttributeView|
                EditView::SetAttribute {
                    attribute: a.attribute,
                    value: a.value->Static_0,
                    is_static: true,
                    id,
                },
        ),
    decreases attributes.len(),
{
    reveal(Seq::filter);
    if attributes.len() > 0 {
        lemma_static_attributes_in_order(attributes.drop_last(), id, is_static);
        assert(is_static(attributes.last()) == (attributes.last().value is Static));
    }
    assert(static_attribute_edits(attributes, id) =~= attributes.filter(is_static).map_values(
        |a: TemplateAttributeView|
            EditView::SetAttribute {
                attribute: a.attribute,
                value: a.value->Static_0,
                is_static: true,
                id,
            },
    ));
}

/// The edits of some nodes are the edits of each of them, one after the other.
proof fn lemma_sibling_edits_in_order(nodes: Seq<NodeView>, ids: Seq<TemplateNodeId>)
    ensures
        sibling_edits(nodes, ids) == ids.map_values(
            |id: TemplateNodeId| node_edits(nodes, nodes[id.0 as int]),
        ).flatten(),
    decreases ids.len(),
{
    let lists = ids.map_values(|id: TemplateNodeId| node_edits(nodes, nodes[id.0 as int]));
    lists.lemma_flatten_and_flatten_alt_are_equivalent();
    if ids.len() > 0 {
        let before = ids.drop_last();
        let first = before.map_values(
            |id: TemplateNodeId| node_edits(nodes, nodes[id.0 as int]),
        );
        lemma_sibling_edits_in_order(nodes, before);
        first.lemma_flatten_and_flatten_alt_are_equivalent();
        assert(lists.drop_last() =~= first);
        assert(lists.last() == node_edits(nodes, nodes[ids.last().0 as int]));
    }
}

/// To create an element sends, in this order: the element itself with its tag, its namespace, its id
/// and its flags; its static attributes in order, each with its own description and value; all that
/// creates each of its children, in order; and that as many nodes as it has children are appended to
/// it.
pub proof fn law_how_an_element_is_created(
    nodes: Seq<NodeView>,
    node: NodeView,
    element: ElementView,
)
    requires
        creatable(nodes, node),
        node.kind == NodeKindView::Element(element),
    ensures
        node_edits(nodes, node) == seq![
            EditView::CreateElementTemplate {
                tag: element.tag,
                namespace: element.namespace,
                id: node.id,
                locally_static: node.locally_static,
                fully_static: node.fully_static,
            },
        ] + element.attributes.filter(|a: TemplateAttributeView| a.value is Static).map_values(
            |a: TemplateAttributeView|
                EditView::SetAttribute {
                    attribute: a.attribute,
                    value: a.value->Static_0,
                    is_static: true,
                    id: node.id,
                },
        ) + element.children.map_values(
            |id: TemplateNodeId| node_edits(nodes, nodes[id.0 as int]),
        ).flatten() + seq![EditView::AppendChildren { count: element.children.len() }],
{
    law_node_edits(nodes, node);
    lemma_static_attributes_in_order(
        element.attributes,
        node.id,
        |a: TemplateAttributeView| a.value is Static,
    );
    lemma_sibling_edits_in_order(nodes, element.children);
}

/// The static attributes that are sent for an element are its static attributes, in order: the first
/// edit for the first of them, and so on, each with its own description and its own value.
pub proof fn law_each_static_attribute_is_sent(
    attributes: Seq<TemplateAttributeView>,
    id: TemplateNodeId,
)
    ensures
        ({
            let fixed = attributes.filter(|a: TemplateAttributeView| a.value is Static);
            &&& static_attribute_edits(attributes, id).len() == fixed.len()
            &&& forall|k: int|
                0 <= k < fixed.len() ==> (#[trigger] static_attribute_edits(attributes, id)[k]) == (
                EditView::SetAttribute {
                    attribute: fixed[k].attribute,
                    value: fixed[k].value->Static_0,
                    is_static: true,
                    id,
                })
        }),
{
    lemma_static_attributes_in_order(
        attributes,
        id,
        |a: TemplateAttributeView| a.value is Static,
    );
}

/// To create a text sends one edit, with the text where it is a single static segment and with an
/// empty text otherwise. To create a dynamic node sends one placeholder.
pub proof fn law_how_a_leaf_is_created(nodes: Seq<NodeView>, node: NodeView)
    requires
        creatable(nodes, node),
    ensures
        node.kind matches NodeKindView::Text(segments) ==> {
            &&& node_edits(nodes, node).len() == 1
            &&& node_edits(nodes, node)[0] is CreateTextNodeTemplate
            &&& node_edits(nodes, node)[0]->CreateTextNodeTemplate_id == node.id
            &&& node_edits(nodes, node)[0]->CreateTextNodeTemplate_locally_static
                == node.locally_static
            &&& segments.len() == 1 && segments[0] is Static ==> node_edits(
                nodes,
                node,
            )[0]->CreateTextNodeTemplate_text == segments[0]->Static_0
            &&& segments.len() != 1 || segments[0] is Dynamic ==> node_edits(
                nodes,
                node,
            )[0]->CreateTextNodeTemplate_text.len() == 0
        },
        node.kind is DynamicNode ==> node_edits(nodes, node) == seq![
            EditView::CreatePlaceholderTemplate { id: node.id },
        ],
{
    law_node_edits(nodes, node);
}

/// To create a template sends that it begins, then all that creates each of its roots, in order, and
/// then that it ends with as many roots. A template without nodes has no roots.
pub proof fn law_how_a_template_is_created(template: TemplateView, id: RendererTemplateId)
    ensures
        template.nodes.len() > 0 ==> template_edits(template, id) == seq![
            EditView::CreateTemplate { template: id },
        ] + template.root_nodes.map_values(
            |root: TemplateNodeId| node_edits(template.nodes, template.nodes[root.0 as int]),
        ).flatten() + seq![EditView::FinishTemplate { len: template.root_nodes.len() }],
        template.nodes.len() == 0 ==> template_edits(template, id) == seq![
            EditView::CreateTemplate { template: id },
            EditView::FinishTemplate { len: 0 },
        ],
{
    lemma_sibling_edits_in_order(template.nodes, template.root_nodes);
    assert(template.root_nodes.map_values(
        |root: TemplateNodeId| node_edits(template.nodes, template.nodes[root.0 as int]),
    ) =~= template.root_nodes.map_values(
        |id: TemplateNodeId| node_edits(template.nodes, template.nodes[id.0 as int]),
    ));
    if template.nodes.len() == 0 {
        assert(template_edits(template, id) =~= seq![
            EditView::CreateTemplate { template: id },
            EditView::FinishTemplate { len: 0 },
        ]);
    }
}

/// A template can be created exactly where it has no nodes, or where its roots can be counted and each
/// of them is in the template and the root of a finite tree.
pub proof fn law_which_templates_can_be_created(template: TemplateView)
    ensures
        template.creatable() <==> {
            ||| template.nodes.len() == 0
            ||| {
                &&& template.root_nodes.len() <= 0x7fff_ffff
                &&& forall|i: int|
                    0 <= i < template.root_nodes.len() ==> {
                        &&& (#[trigger] template.root_nodes[i]).0 < template.nodes.len()
                        &&& creatable(
                            template.nodes,
                            template.nodes[template.root_nodes[i].0 as int],
                        )
                    }
            }
        },
{
    if template.creatable() && template.nodes.len() > 0 {
        assert forall|i: int| 0 <= i < template.root_nodes.len() implies {
            &&& (#[trigger] template.root_nodes[i]).0 < template.nodes.len()
            &&& creatable(template.nodes, template.nodes[template.root_nodes[i].0 as int])
        } by {
            assert(id_creatable(template.nodes, template.root_nodes[i]));
        }
    }
}

/// A node below which one can go down without end cannot be created.
pub proof fn law_endless_trees_cannot_be_created(
    nodes: Seq<NodeView>,
    walk: spec_fn(nat) -> NodeView,
)
    requires
        forall|n: nat| is_step(nodes, #[trigger] walk(n), walk(n + 1)),
    ensures
        !creatable(nodes, walk(0)),
{
    if creatable(nodes, walk(0)) {
        let start = walk(0);
        let depth = choose|depth: nat| creatable_within(nodes, start, depth);
        lemma_endless_walk(nodes, walk, 0, depth);
    }
}

/// The second node is a child of the first.
pub open spec fn is_step(nodes: Seq<NodeView>, node: NodeView, below: NodeView) -> bool {
    node.kind matches NodeKindView::Element(element) && exists|i: int|
        0 <= i < element.children.len() && (#[trigger] element.children[i]).0 < nodes.len()
            && nodes[element.children[i].0 as int] == below
}

proof fn lemma_endless_walk(
    nodes: Seq<NodeView>,
    walk: spec_fn(nat) -> NodeView,
    n: nat,
    depth: nat,
)
    requires
        forall|n: nat| is_step(nodes, #[trigger] walk(n), walk(n + 1)),
    ensures
        !creatable_within(nodes, walk(n), depth),
    decreases depth,
{
    assert(is_step(nodes, walk(n), walk(n + 1)));
    let children = walk(n).kind->Element_0.children;
    let i = choose|i: int|
        0 <= i < children.len() && (#[trigger] children[i]).0 < nodes.len()
            && nodes[children[i].0 as int] == walk(n + 1);
    assert(walk(n).kind.children()[i] == children[i]);
    if depth > 0 {
        lemma_endless_walk(nodes, walk, n + 1, (depth - 1) as nat);
    }
}

/// To create a template adds to the changes: that the template begins, all that creates each of its
/// roots in order, and that it ends with as many roots. To create a node adds all that creates it.
pub proof fn law_creating_adds_changes<'b>(
    template: &Template,
    bump: &'b Bump,
    id: RendererTemplateId,
    node: TemplateNodeId,
)
    ensures
        template@.creatable() && template@.nodes.len() > 0 ==> forall|mutations: &mut Mutations<'b>|
            #[trigger]
            call_ensures(Template::create, (template, mutations, bump, id), ())
                ==> final(mutations)@ == mutations@
                    + (seq![EditView::CreateTemplate { template: id }]
                + template@.root_nodes.map_values(
                |root: TemplateNodeId| node_edits(template@.nodes, template@.nodes[root.0 as int]),
            ).flatten() + seq![EditView::FinishTemplate { len: template@.root_nodes.len() }]),
        template@.nodes.len() == 0 ==> forall|mutations: &mut Mutations<'b>| #[trigger]
            call_ensures(Template::create, (template, mutations, bump, id), ())
                ==> final(mutations)@ == mutations@ + seq![
                EditView::CreateTemplate { template: id },
                EditView::FinishTemplate { len: 0 },
            ],
        id_creatable(template@.nodes, node) ==> forall|mutations: &mut Mutations<'b>| #[trigger]
            call_ensures(Template::create_node, (template, mutations, bump, node), ())
                ==> final(mutations)@ == mutations@
                    + node_edits(template@.nodes, template@.nodes[node.0 as int]),
{
    law_how_a_template_is_created(template@, id);
}

/// A template can be created wherever it is made of finite trees, and a node wherever it is the root of
/// one.
pub proof fn law_when_to_create<'b>(
    template: &Template,
    bump: &'b Bump,
    id: RendererTemplateId,
    node: TemplateNodeId,
)
    ensures
        template@.creatable() ==> forall|mutations: &mut Mutations<'b>| #[trigger]
            call_requires(Template::create, (template, mutations, bump, id)),
        node.0 < template@.nodes.len() && creatable(
            template@.nodes,
            template@.nodes[node.0 as int],
        ) ==> forall|mutations: &mut Mutations<'b>| #[trigger]
            call_requires(Template::create_node, (template, mutations, bump, node)),
{
    if node.0 < template@.nodes.len() && creatable(
        template@.nodes,
        template@.nodes[node.0 as int],
    ) {
        assert(id_creatable(template@.nodes, node));
    }
}

} // verus!
