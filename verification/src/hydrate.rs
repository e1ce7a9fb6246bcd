//! Hydrating a node of a template: filling in its dynamic parts.
use bumpalo::Bump;
use vstd::prelude::*;

use crate::context::{resolved_text, text_resolvable, ContextView, TemplateContext};
use crate::create::{initial_text, stack_size_after, static_attribute_edits};
use crate::ids::{ElementId, GlobalNodeId, ScopeId, TemplateNodeId};
use crate::mutations::{Attribute, EditView, Listener, ListenerView, Mutations};
use crate::node::{
    attribute_views, segment_views, ElementView, NodeKindView, NodeView, TemplateAttribute,
    TemplateAttributeValue, TemplateAttributeValueView, TemplateAttributeView, TemplateElement,
    TemplateNode, TemplateNodeType, TextSegmentView, TextTemplateSegment,
};
use crate::storage::{AsSlice, AsText};
use crate::template_ref::VTemplateRef;
use crate::value::{AttributeValueView, TemplateValue};

verus! {

/// What is known while the document is brought up to date.
pub struct DiffState<'b> {
    /// The changes so far.
    pub mutations: Mutations<'b>,
    /// The nodes that are being worked on, the innermost last.
    pub element_stack: Vec<GlobalNodeId>,
    /// The scope that is being rendered.
    pub scope: ScopeId,
    /// The arena of that scope.
    pub scope_bump: &'b Bump,
}

impl<'b> DiffState<'b> {
    /// The scope that is being rendered.
    pub fn current_scope(&self) -> (res: ScopeId)
        ensures
            res == self.scope,
    {
        self.scope
    }

    /// The arena of the scope that is being rendered.
    pub fn current_scope_bump(&self) -> (res: &'b Bump)
        ensures
            res == self.scope_bump,
    {
        self.scope_bump
    }
}

/// The identifier of a node of a template within an instance.
pub open spec fn instance_node(instance: ElementId, id: TemplateNodeId) -> GlobalNodeId {
    GlobalNodeId::TemplateId { template_ref_id: instance, template_node_id: id }
}

/// The edits that set the dynamic attributes of a node.
pub open spec fn dynamic_attribute_edits(
    attributes: Seq<TemplateAttributeView>,
    values: Seq<AttributeValueView>,
    id: TemplateNodeId,
) -> Seq<EditView>
    decreases attributes.len(),
{
    if attributes.len() == 0 {
        Seq::empty()
    } else {
        let before = dynamic_attribute_edits(attributes.drop_last(), values, id);
        match attributes.last().value {
            TemplateAttributeValueView::Static(_) => before,
            TemplateAttributeValueView::Dynamic(idx) => before.push(
                EditView::SetAttribute {
                    attribute: attributes.last().attribute,
                    value: values[idx as int],
                    is_static: false,
                    id,
                },
            ),
        }
    }
}

/// The edits that make listeners hear their events on a node.
pub open spec fn listener_edits(
    indices: Seq<usize>,
    listeners: Seq<ListenerView>,
    node: GlobalNodeId,
    scope: ScopeId,
) -> Seq<EditView> {
    indices.map_values(
        |idx: usize|
            EditView::NewEventListener {
                listener: ListenerView {
                    event: listeners[idx as int].event,
                    mounted_node: Some(node),
                },
                scope,
            },
    )
}

/// The number is one of the indices.
pub open spec fn is_index_of(indices: Seq<usize>, i: int) -> bool {
    exists|k: int| 0 <= k < indices.len() && #[trigger] indices[k] == i
}

/// The listeners after those with the given indices were mounted on a node.
pub open spec fn mounted(
    listeners: Seq<ListenerView>,
    indices: Seq<usize>,
    node: GlobalNodeId,
) -> Seq<ListenerView> {
    Seq::new(
        listeners.len(),
        |i: int|
            if is_index_of(indices, i) {
                ListenerView { event: listeners[i].event, mounted_node: Some(node) }
            } else {
                listeners[i]
            },
    )
}

/// The context has a value for each dynamic part of the node.
pub open spec fn hydratable<N>(node: NodeView, context: ContextView<N>) -> bool {
    match node.kind {
        NodeKindView::Element(element) => {
            &&& forall|i: int|
                0 <= i < element.attributes.len() ==> ((
                #[trigger] element.attributes[i]).value matches TemplateAttributeValueView::Dynamic(
                    idx,
                ) ==> idx < context.attributes.len())
            &&& forall|i: int|
                0 <= i < element.listeners.len() ==> #[trigger] element.listeners[i]
                    < context.listeners.len()
        },
        NodeKindView::Text(segments) => text_resolvable(segments, context.text_segments),
        NodeKindView::DynamicNode(idx) => idx < context.nodes.len(),
    }
}

/// The edits that fill in the dynamic parts of an element or a text.
pub open spec fn content_edits<N>(
    node: NodeView,
    context: ContextView<N>,
    instance: ElementId,
    scope: ScopeId,
) -> Seq<EditView> {
    match node.kind {
        NodeKindView::Element(element) => dynamic_attribute_edits(
            element.attributes,
            context.attributes,
            node.id,
        ) + listener_edits(
            element.listeners,
            context.listeners,
            instance_node(instance, node.id),
            scope,
        ),
        NodeKindView::Text(segments) => seq![
            EditView::SetText {
                text: resolved_text(segments, context.text_segments),
                id: node.id,
            },
        ],
        NodeKindView::DynamicNode(_) => Seq::empty(),
    }
}

/// The edits that hydrate an element or a text.
pub open spec fn hydration_edits<N>(
    node: NodeView,
    context: ContextView<N>,
    instance: ElementId,
    scope: ScopeId,
) -> Seq<EditView> {
    seq![EditView::EnterTemplateRef { template_ref: instance }] + content_edits(
        node,
        context,
        instance,
        scope,
    ) + seq![EditView::ExitTemplateRef]
}

/// The listeners after a node was hydrated.
pub open spec fn listeners_after(
    node: NodeView,
    listeners: Seq<ListenerView>,
    instance: ElementId,
) -> Seq<ListenerView> {
    match node.kind {
        NodeKindView::Element(element) => mounted(
            listeners,
            element.listeners,
            instance_node(instance, node.id),
        ),
        _ => listeners,
    }
}

/// The stack without its last entry, if it has one.
pub open spec fn popped(stack: Seq<GlobalNodeId>) -> Seq<GlobalNodeId> {
    if stack.len() == 0 {
        stack
    } else {
        stack.drop_last()
    }
}

/// The edits that end the hydration of a dynamic node in whose place `created` nodes were created.
/// The renderer is told the number as a `u32`.
pub open spec fn replacement_edits(node: NodeView, created: usize) -> Seq<EditView> {
    seq![
        EditView::ReplaceWith { id: node.id, created: (created as u32) as nat },
        EditView::ExitTemplateRef,
    ]
}

/// What hydration changes.
pub struct HydrationView {
    /// The changes so far.
    pub edits: Seq<EditView>,
    /// The nodes that are being worked on.
    pub element_stack: Seq<GlobalNodeId>,
    /// The listeners of the instance.
    pub listeners: Seq<ListenerView>,
}

/// The state that hydration changes, as it is stored.
pub open spec fn hydration_state<N>(
    diff_state: DiffState,
    template_ref: VTemplateRef<N>,
) -> HydrationView {
    HydrationView {
        edits: diff_state.mutations@,
        element_stack: diff_state.element_stack@,
        listeners: template_ref.dynamic_context@.listeners,
    }
}

/// What is left when work on a node of the instance has begun.
pub open spec fn entered(
    node: NodeView,
    instance: ElementId,
    before: HydrationView,
) -> HydrationView {
    HydrationView {
        edits: before.edits.push(EditView::EnterTemplateRef { template_ref: instance }),
        element_stack: before.element_stack.push(instance_node(instance, node.id)),
        listeners: before.listeners,
    }
}

/// What is left when an element or a text was hydrated.
pub open spec fn filled_in<N>(
    node: NodeView,
    context: ContextView<N>,
    instance: ElementId,
    scope: ScopeId,
    before: HydrationView,
) -> HydrationView {
    HydrationView {
        edits: before.edits + hydration_edits(node, context, instance, scope),
        element_stack: before.element_stack,
        listeners: listeners_after(node, before.listeners, instance),
    }
}

/// What is left when a dynamic node is done, in whose place `created` nodes were created.
pub open spec fn replaced(node: NodeView, created: usize, before: HydrationView) -> HydrationView {
    HydrationView {
        edits: before.edits + replacement_edits(node, created),
        element_stack: popped(before.element_stack),
        listeners: before.listeners,
    }
}

/// Sets the dynamic attributes of a node.
fn set_dynamic_attributes<'b, V: TemplateValue, N>(
    attributes: &[TemplateAttribute<V>],
    context: &TemplateContext<'b, N>,
    diff_state: &mut DiffState<'b>,
    id: TemplateNodeId,
)
    requires
        forall|i: int|
            0 <= i < attributes@.len() ==> ((
            #[trigger] attributes@[i]).value matches TemplateAttributeValue::Dynamic(idx) ==> idx
                < context@.attributes.len()),
    ensures
        final(diff_state).mutations@ == old(diff_state).mutations@ + dynamic_attribute_edits(
            attribute_views(attributes@),
            context@.attributes,
            id,
        ),
        final(diff_state).element_stack == old(diff_state).element_stack,
        final(diff_state).scope == old(diff_state).scope,
        final(diff_state).scope_bump == old(diff_state).scope_bump,
{
    let ghost views = attribute_views(attributes@);
    let ghost values = context@.attributes;
    let mut i: usize = 0;
    assert(diff_state.mutations@ =~= old(diff_state).mutations@ + dynamic_attribute_edits(
        views.take(0),
        values,
        id,
    ));
    while i < attributes.len()
        invariant
            i <= attributes.len(),
            views == attribute_views(attributes@),
            values == context@.attributes,
            forall|j: int|
                0 <= j < attributes@.len() ==> ((
                #[trigger] attributes@[j]).value matches TemplateAttributeValue::Dynamic(idx) ==> idx
                    < values.len()),
            diff_state.mutations@ == old(diff_state).mutations@ + dynamic_attribute_edits(
                views.take(i as int),
                values,
                id,
            ),
            diff_state.element_stack == old(diff_state).element_stack,
            diff_state.scope == old(diff_state).scope,
            diff_state.scope_bump == old(diff_state).scope_bump,
        decreases attributes.len() - i,
    {
        assert(views.take(i + 1).drop_last() =~= views.take(i as int));
        assert(views.take(i + 1).last() == attributes@[i as int]@);
        let attr: &TemplateAttribute<V> = &attributes[i];
        if let TemplateAttributeValue::Dynamic(idx) = &attr.value {
            let attribute = Attribute {
                attribute: attr.attribute,
                value: context.resolve_attribute(*idx),
                is_static: false,
            };
            let scope_bump: &'b Bump = diff_state.current_scope_bump();
            diff_state.mutations.set_attribute(scope_bump.alloc(attribute), id);
        }
        i += 1;
        assert(diff_state.mutations@ =~= old(diff_state).mutations@ + dynamic_attribute_edits(
            views.take(i as int),
            values,
            id,
        ));
    }
    assert(views.take(i as int) =~= views);
}

/// Mounts listeners on a node.
fn mount_listeners<'b, N>(
    indices: &[usize],
    context: &mut TemplateContext<'b, N>,
    diff_state: &mut DiffState<'b>,
    global_id: GlobalNodeId,
)
    requires
        forall|i: int|
            0 <= i < indices@.len() ==> #[trigger] indices@[i] < old(context)@.listeners.len(),
    ensures
        final(context)@ == (ContextView {
            listeners: mounted(old(context)@.listeners, indices@, global_id),
            ..old(context)@
        }),
        final(diff_state).mutations@ == old(diff_state).mutations@ + listener_edits(
            indices@,
            old(context)@.listeners,
            global_id,
            old(diff_state).scope,
        ),
        final(diff_state).element_stack == old(diff_state).element_stack,
        final(diff_state).scope == old(diff_state).scope,
        final(diff_state).scope_bump == old(diff_state).scope_bump,
{
    let ghost listeners = context@.listeners;
    let ghost scope = diff_state.scope;
    let mut i: usize = 0;
    assert(diff_state.mutations@ =~= old(diff_state).mutations@ + listener_edits(
        indices@.take(0),
        listeners,
        global_id,
        scope,
    ));
    assert(context@.listeners =~= mounted(listeners, indices@.take(0), global_id));
    while i < indices.len()
        invariant
            i <= indices.len(),
            listeners == old(context)@.listeners,
            scope == old(diff_state).scope,
            forall|j: int|
                0 <= j < indices@.len() ==> #[trigger] indices@[j] < listeners.len(),
            context.nodes == old(context).nodes,
            context.text_segments == old(context).text_segments,
            context.attributes == old(context).attributes,
            context@.listeners == mounted(listeners, indices@.take(i as int), global_id),
            diff_state.mutations@ == old(diff_state).mutations@ + listener_edits(
                indices@.take(i as int),
                listeners,
                global_id,
                scope,
            ),
            diff_state.element_stack == old(diff_state).element_stack,
            diff_state.scope == scope,
            diff_state.scope_bump == old(diff_state).scope_bump,
        decreases indices.len() - i,
    {
        let ghost before = context@.listeners;
        let ghost done = indices@.take(i as int);
        let ghost next = indices@.take(i + 1);
        let idx: usize = indices[i];
        let mut listener: Listener = context.resolve_listener(idx);
        listener.mounted_node = Some(global_id);
        assert(context.listeners@.len() == before.len());
        context.listeners.set(idx, listener);
        assert(context@.listeners =~= before.update(idx as int, listener@));
        diff_state.mutations.new_event_listener(listener, diff_state.scope);
        i += 1;
        assert(next =~= done.push(idx));
        assert(next[done.len() as int] == idx);
        assert forall|k: int| #[trigger] is_index_of(next, k) == (is_index_of(done, k) || k == idx) by {
            if is_index_of(done, k) {
                let p = choose|p: int| 0 <= p < done.len() && #[trigger] done[p] == k;
                assert(next[p] == k);
            }
            if is_index_of(next, k) {
                let p = choose|p: int| 0 <= p < next.len() && #[trigger] next[p] == k;
                if p < done.len() {
                    assert(done[p] == k);
                }
            }
        }
        assert(context@.listeners =~= mounted(listeners, next, global_id));
        assert(diff_state.mutations@ =~= old(diff_state).mutations@ + listener_edits(
            next,
            listeners,
            global_id,
            scope,
        ));
    }
    assert(indices@.take(i as int) =~= indices@);
}

impl<Attributes, V, Children, Listeners, TextSegments, Text> TemplateNode<
    Attributes,
    V,
    Children,
    Listeners,
    TextSegments,
    Text,
> where
    Attributes: AsSlice<TemplateAttribute<V>>,
    V: TemplateValue,
    Children: AsSlice<TemplateNodeId>,
    Listeners: AsSlice<usize>,
    TextSegments: AsSlice<TextTemplateSegment<Text>>,
    Text: AsText,
 {
    /// Whether the context has a value for each dynamic part of the node.
    pub fn is_hydratable<'b, N>(&self, context: &TemplateContext<'b, N>) -> (res: bool)
        ensures
            res == hydratable(self@, context@),
    {
        match &self.node_type {
            TemplateNodeType::Element(el) => {
                let attributes: &[TemplateAttribute<V>] = el.attributes.as_slice();
                let mut i: usize = 0;
                while i < attributes.len()
                    invariant
                        i <= attributes.len(),
                        attributes@ == el.attributes.elements(),
                        self@.kind == NodeKindView::Element(el@),
                        forall|j: int|
                            0 <= j < i ==> ((
                            #[trigger] el@.attributes[j]).value matches TemplateAttributeValueView::Dynamic(
                                idx,
                            ) ==> idx < context@.attributes.len()),
                    decreases attributes.len() - i,
                {
                    assert(el@.attributes[i as int] == attributes@[i as int]@);
                    if let TemplateAttributeValue::Dynamic(idx) = &attributes[i].value {
                        if *idx >= context.attributes.len() {
                            return false;
                        }
                    }
                    i += 1;
                }
                let listeners: &[usize] = el.listeners.as_slice();
                let mut k: usize = 0;
                while k < listeners.len()
                    invariant
                        k <= listeners.len(),
                        listeners@ == el@.listeners,
                        self@.kind == NodeKindView::Element(el@),
                        forall|j: int|
                            0 <= j < k ==> #[trigger] el@.listeners[j] < context@.listeners.len(),
                    decreases listeners.len() - k,
                {
                    assert(el@.listeners[k as int] == listeners[k as int]);
                    if listeners[k] >= context.listeners.len() {
                        return false;
                    }
                    k += 1;
                }
                true
            },
            TemplateNodeType::Text(text) => {
                let segments: &[TextTemplateSegment<Text>] = text.segments.as_slice();
                let ghost views = segment_views(segments@);
                let mut i: usize = 0;
                while i < segments.len()
                    invariant
                        i <= segments.len(),
                        views == segment_views(segments@),
                        self@.kind == NodeKindView::Text(views),
                        forall|j: int|
                            0 <= j < i ==> ((
                            #[trigger] views[j]) matches TextSegmentView::Dynamic(idx) ==> idx
                                < context@.text_segments.len()),
                    decreases segments.len() - i,
                {
                    assert(views[i as int] == segments@[i as int]@);
                    if let TextTemplateSegment::Dynamic(idx) = &segments[i] {
                        if *idx >= context.text_segments.len() {
                            return false;
                        }
                    }
                    i += 1;
                }
                true
            },
            TemplateNodeType::DynamicNode(idx) => *idx < context.nodes.len(),
        }
    }

    /// Fills in the dynamic parts of the node. An element or a text is then done. A dynamic node is
    /// returned: it has to be created, and [`TemplateNode::hydrate_created`] goes on from there.
    pub fn hydrate<'b, N>(
        &self,
        diff_state: &mut DiffState<'b>,
        template_ref: &mut VTemplateRef<'b, N>,
    ) -> (res: Option<&'b N>)
        requires
            old(template_ref).id is Some,
            hydratable(self@, old(template_ref).dynamic_context@),
        ensures
            final(template_ref).id == old(template_ref).id,
            final(template_ref).template_id == old(template_ref).template_id,
            final(template_ref).dynamic_context@ == (ContextView {
                listeners: listeners_after(
                    self@,
                    old(template_ref).dynamic_context@.listeners,
                    old(template_ref).id->0,
                ),
                ..old(template_ref).dynamic_context@
            }),
            final(diff_state).scope == old(diff_state).scope,
            final(diff_state).scope_bump == old(diff_state).scope_bump,
            match self@.kind {
                NodeKindView::DynamicNode(idx) => {
                    &&& res is Some
                    &&& *res->0 == old(template_ref).dynamic_context@.nodes[idx as int]
                    &&& hydration_state(*final(diff_state), *final(template_ref)) == entered(
                        self@,
                        old(template_ref).id->0,
                        hydration_state(*old(diff_state), *old(template_ref)),
                    )
                },
                _ => {
                    &&& res is None
                    &&& hydration_state(*final(diff_state), *final(template_ref)) == filled_in(
                        self@,
                        old(template_ref).dynamic_context@,
                        old(template_ref).id->0,
                        old(diff_state).scope,
                        hydration_state(*old(diff_state), *old(template_ref)),
                    )
                },
            },
    {
        let real_id: ElementId = template_ref.id.unwrap();
        let global_id = GlobalNodeId::TemplateId {
            template_ref_id: real_id,
            template_node_id: self.id,
        };
        diff_state.element_stack.push(global_id);
        diff_state.mutations.enter_template_ref(real_id);
        match &self.node_type {
            TemplateNodeType::Element(el) => {
                let TemplateElement { attributes, listeners, .. } = el;
                let attributes: &[TemplateAttribute<V>] = attributes.as_slice();
                assert forall|i: int| 0 <= i < attributes@.len() implies ((
                #[trigger] attributes@[i]).value matches TemplateAttributeValue::Dynamic(idx) ==> idx
                    < template_ref.dynamic_context@.attributes.len()) by {
                    assert(el@.attributes[i] == attributes@[i]@);
                }
                set_dynamic_attributes(
                    attributes,
                    &template_ref.dynamic_context,
                    diff_state,
                    self.id,
                );
                mount_listeners(
                    listeners.as_slice(),
                    &mut template_ref.dynamic_context,
                    diff_state,
                    global_id,
                );
            },
            TemplateNodeType::Text(text) => {
                let new_text: String = template_ref.dynamic_context.resolve_text(
                    text.segments.as_slice(),
                );
                let scope_bump: &'b Bump = diff_state.current_scope_bump();
                let new_text: &'b String = scope_bump.alloc(new_text);
                diff_state.mutations.set_text(new_text.as_str(), self.id);
            },
            TemplateNodeType::DynamicNode(idx) => {
                return Some(template_ref.dynamic_context.resolve_node(*idx));
            },
        }
        diff_state.mutations.exit_template_ref();
        let _ = diff_state.element_stack.pop();
        assert(diff_state.element_stack@ =~= old(diff_state).element_stack@);
        assert(diff_state.mutations@ =~= old(diff_state).mutations@ + hydration_edits(
            self@,
            old(template_ref).dynamic_context@,
            real_id,
            old(diff_state).scope,
        ));
        None
    }

    /// Puts the `created` nodes that are on the renderer's stack in the place of a dynamic node, which
    /// is then done.
    pub fn hydrate_created<'b>(&self, diff_state: &mut DiffState<'b>, created: usize)
        ensures
            final(diff_state).mutations@ == old(diff_state).mutations@ + replacement_edits(
                self@,
                created,
            ),
            final(diff_state).element_stack@ == popped(old(diff_state).element_stack@),
            final(diff_state).scope == old(diff_state).scope,
            final(diff_state).scope_bump == old(diff_state).scope_bump,
    {
        diff_state.mutations.replace_with(
            self.id,
            #[verifier::truncate]
            (created as u32),
        );
        diff_state.mutations.exit_template_ref();
        let _ = diff_state.element_stack.pop();
        assert(diff_state.mutations@ =~= old(diff_state).mutations@ + replacement_edits(
            self@,
            created,
        ));
    }
}

/// The edit fills in something of the given node of the instance, from the dynamic context.
pub open spec fn is_content_edit(edit: EditView, instance: ElementId, id: TemplateNodeId) -> bool {
    match edit {
        EditView::SetAttribute { is_static, id: of, .. } => !is_static && of == id,
        EditView::SetText { id: of, .. } => of == id,
        EditView::NewEventListener { listener, .. } => listener.mounted_node == Some(
            instance_node(instance, id),
        ),
        _ => false,
    }
}

proof fn lemma_dynamic_attribute_edits(
    attributes: Seq<TemplateAttributeView>,
    values: Seq<AttributeValueView>,
    instance: ElementId,
    id: TemplateNodeId,
)
    ensures
        forall|i: int|
            0 <= i < dynamic_attribute_edits(attributes, values, id).len() ==> is_content_edit(
                #[trigger] dynamic_attribute_edits(attributes, values, id)[i],
                instance,
                id,
            ),
    decreases attributes.len(),
{
    if attributes.len() > 0 {
        lemma_dynamic_attribute_edits(attributes.drop_last(), values, instance, id);
        let before = dynamic_attribute_edits(attributes.drop_last(), values, id);
        let edits = dynamic_attribute_edits(attributes, values, id);
        assert forall|i: int| 0 <= i < edits.len() implies is_content_edit(
            #[trigger] edits[i],
            instance,
            id,
        ) by {
            if i < before.len() {
                assert(edits[i] == before[i]);
            }
        }
    }
}

/// To hydrate an element or a text sends, between entering and leaving the instance, only what comes
/// from the dynamic context, and only for that node.
pub proof fn law_hydration_fills_in_one_node<N>(
    node: NodeView,
    context: ContextView<N>,
    instance: ElementId,
    scope: ScopeId,
)
    ensures
        hydration_edits(node, context, instance, scope).first() == (EditView::EnterTemplateRef {
            template_ref: instance,
        }),
        hydration_edits(node, context, instance, scope).last() == EditView::ExitTemplateRef,
        forall|i: int|
            0 < i < hydration_edits(node, context, instance, scope).len() - 1 ==> is_content_edit(
                #[trigger] hydration_edits(node, context, instance, scope)[i],
                instance,
                node.id,
            ),
{
    let edits = hydration_edits(node, context, instance, scope);
    let content = content_edits(node, context, instance, scope);
    if let NodeKindView::Element(element) = node.kind {
        lemma_dynamic_attribute_edits(
            element.attributes,
            context.attributes,
            instance,
            node.id,
        );
    }
    assert forall|i: int| 0 <= i < content.len() implies is_content_edit(
        #[trigger] content[i],
        instance,
        node.id,
    ) by {
        if let NodeKindView::Element(element) = node.kind {
            let attributes = dynamic_attribute_edits(
                element.attributes,
                context.attributes,
                node.id,
            );
            if i < attributes.len() {
                assert(content[i] == attributes[i]);
            }
        }
    }
    assert forall|i: int| 0 < i < edits.len() - 1 implies is_content_edit(
        #[trigger] edits[i],
        instance,
        node.id,
    ) by {
        assert(edits[i] == content[i - 1]);
    }
}

/// To hydrate a node, of whatever kind, sends that the instance is entered first and that it is left
/// last, and leaves the stack of elements as it was. A dynamic node is created in between outside of
/// this library, with the node on top of the stack. That may send edits of its own; what is required of
/// it is that it leaves the stack as it found it.
pub proof fn law_a_node_is_hydrated_within_the_instance<N>(
    node: NodeView,
    context: ContextView<N>,
    instance: ElementId,
    scope: ScopeId,
    before: HydrationView,
    between: HydrationView,
    created: usize,
)
    requires
        node.kind is DynamicNode ==> {
            &&& entered(node, instance, before).edits.is_prefix_of(between.edits)
            &&& between.element_stack == entered(node, instance, before).element_stack
        },
    ensures
        ({
            let after = if node.kind is DynamicNode {
                replaced(node, created, between)
            } else {
                filled_in(node, context, instance, scope, before)
            };
            &&& after.element_stack == before.element_stack
            &&& before.edits.is_prefix_of(after.edits)
            &&& after.edits.len() >= before.edits.len() + 2
            &&& after.edits[before.edits.len() as int] == (EditView::EnterTemplateRef {
                template_ref: instance,
            })
            &&& after.edits.last() == EditView::ExitTemplateRef
        }),
        entered(node, instance, before).element_stack.last() == instance_node(instance, node.id),
{
    if node.kind is DynamicNode {
        let after = replaced(node, created, between);
        let first = entered(node, instance, before).edits;
        assert(after.element_stack =~= before.element_stack);
        assert forall|i: int| 0 <= i < first.len() implies after.edits[i] == first[i] by {
            assert(between.edits.subrange(0, first.len() as int)[i] == first[i]);
        }
        assert forall|i: int| 0 <= i < before.edits.len() implies after.edits.subrange(
            0,
            before.edits.len() as int,
        )[i] == before.edits[i] by {
            assert(after.edits[i] == first[i]);
        }
        assert(after.edits[before.edits.len() as int] == first[before.edits.len() as int]);
    } else {
        law_hydration_fills_in_one_node(node, context, instance, scope);
    }
}

/// The edits of a locally static node are the same in every context, so that such a node need not be
/// looked at again: a static element has nothing to fill in.
pub proof fn law_static_nodes_ignore_the_context<N>(
    node: NodeView,
    a: ContextView<N>,
    b: ContextView<N>,
    instance: ElementId,
    scope: ScopeId,
)
    requires
        node.kind.locally_static(),
    ensures
        hydration_edits(node, a, instance, scope) == hydration_edits(node, b, instance, scope),
        node.kind is Element ==> content_edits(node, a, instance, scope).len() == 0,
        listeners_after(node, a.listeners, instance) == a.listeners,
{
    match node.kind {
        NodeKindView::Element(element) => {
            lemma_no_dynamic_attributes(element.attributes, a.attributes, node.id);
            lemma_no_dynamic_attributes(element.attributes, b.attributes, node.id);
            assert(content_edits(node, a, instance, scope) =~= content_edits(
                node,
                b,
                instance,
                scope,
            ));
            assert(listeners_after(node, a.listeners, instance) =~= a.listeners);
        },
        NodeKindView::Text(segments) => {
            lemma_static_text(segments, a.text_segments, b.text_segments);
        },
        NodeKindView::DynamicNode(_) => {},
    }
}

proof fn lemma_no_dynamic_attributes(
    attributes: Seq<TemplateAttributeView>,
    values: Seq<AttributeValueView>,
    id: TemplateNodeId,
)
    requires
        forall|i: int| 0 <= i < attributes.len() ==> (#[trigger] attributes[i]).value is Static,
    ensures
        dynamic_attribute_edits(attributes, values, id).len() == 0,
    decreases attributes.len(),
{
    if attributes.len() > 0 {
        assert(attributes[attributes.len() - 1].value is Static);
        lemma_no_dynamic_attributes(attributes.drop_last(), values, id);
    }
}

proof fn lemma_static_text(
    segments: Seq<TextSegmentView>,
    a: Seq<Seq<char>>,
    b: Seq<Seq<char>>,
)
    requires
        forall|i: int| 0 <= i < segments.len() ==> #[trigger] segments[i] is Static,
    ensures
        resolved_text(segments, a) == resolved_text(segments, b),
    decreases segments.len(),
{
    if segments.len() > 0 {
        assert(segments[segments.len() - 1] is Static);
        lemma_static_text(segments.drop_last(), a, b);
    }
}

/// The text that a text node is created with, where it is known in advance, is the one that hydration
/// would give it: nothing is left to be done for it.
pub proof fn law_initial_text_is_final(
    segments: Seq<TextSegmentView>,
    texts: Seq<Seq<char>>,
)
    requires
        segments.len() == 1,
        segments[0] is Static,
    ensures
        resolved_text(segments, texts) == initial_text(segments),
{
    assert(segments.drop_last() =~= Seq::empty());
    assert(resolved_text(segments.drop_last(), texts) =~= Seq::<char>::empty());
    assert(resolved_text(segments, texts) =~= initial_text(segments));
}

/// Each attribute of an element is set once: with the template where it is static, with the instance
/// where it is dynamic.
pub proof fn law_each_attribute_is_set_once(
    attributes: Seq<TemplateAttributeView>,
    values: Seq<AttributeValueView>,
    id: TemplateNodeId,
)
    ensures
        static_attribute_edits(attributes, id).len() + dynamic_attribute_edits(
            attributes,
            values,
            id,
        ).len() == attributes.len(),
    decreases attributes.len(),
{
    if attributes.len() > 0 {
        law_each_attribute_is_set_once(attributes.drop_last(), values, id);
    }
}

/// To hydrate an element or a text leaves the renderer's stack of nodes as it was.
pub proof fn law_hydration_keeps_the_renderer_stack<N>(
    node: NodeView,
    context: ContextView<N>,
    instance: ElementId,
    scope: ScopeId,
    size: nat,
)
    ensures
        stack_size_after(size, hydration_edits(node, context, instance, scope)) == Some(size),
{
    law_hydration_fills_in_one_node(node, context, instance, scope);
    let edits = hydration_edits(node, context, instance, scope);
    lemma_stack_size_unchanged(size, edits, instance, node.id, edits.len());
    assert(edits.take(edits.len() as int) =~= edits);
}

proof fn lemma_stack_size_unchanged(
    size: nat,
    edits: Seq<EditView>,
    instance: ElementId,
    id: TemplateNodeId,
    n: nat,
)
    requires
        n <= edits.len(),
        forall|i: int|
            0 <= i < edits.len() ==> {
                ||| is_content_edit(#[trigger] edits[i], instance, id)
                ||| edits[i] is EnterTemplateRef
                ||| edits[i] is ExitTemplateRef
            },
    ensures
        stack_size_after(size, edits.take(n as int)) == Some(size),
    decreases n,
{
    if n > 0 {
        lemma_stack_size_unchanged(size, edits, instance, id, (n - 1) as nat);
        assert(edits.take(n as int).drop_last() =~= edits.take(n - 1));
        assert(edits.take(n as int).last() == edits[n - 1]);
    }
}

/// To put the created nodes in the place of a dynamic node takes exactly these from the renderer's
/// stack. The renderer counts them in a `u32`, so there must not be more than that holds.
pub proof fn law_replacement_takes_what_was_created(node: NodeView, created: usize, size: nat)
    requires
        created <= u32::MAX,
    ensures
        stack_size_after(size + created as nat, replacement_edits(node, created)) == Some(size),
{
    let edits = replacement_edits(node, created);
    assert(edits.drop_last() =~= seq![edits[0]]);
    assert(edits.drop_last().drop_last() =~= Seq::empty());
    assert(stack_size_after(size + created as nat, edits.drop_last().drop_last()) == Some(
        size + created as nat,
    ));
    assert(stack_size_after(size + created as nat, edits.drop_last()) == Some(size));
}

proof fn lemma_dynamic_attributes_in_order(
    attributes: Seq<TemplateAttributeView>,
    values: Seq<AttributeValueView>,
    id: TemplateNodeId,
    is_dynamic: spec_fn(TemplateAttributeView) -> bool,
)
    requires
        forall|a: TemplateAttributeView| #[trigger] is_dynamic(a) == (a.value is Dynamic),
    ensures
        ({
            let dynamic = attributes.filter(is_dynamic);
            &&& dynamic_attribute_edits(attributes, values, id).len() == dynamic.len()
            &&& forall|k: int|
                0 <= k < dynamic.len() ==> #[trigger] dynamic_attribute_edits(
                    attributes,
                    values,
                    id,
                )[k] == (EditView::SetAttribute {
                    attribute: dynamic[k].attribute,
                    value: values[dynamic[k].value->Dynamic_0 as int],
                    is_static: false,
                    id,
                })
        }),
    decreases attributes.len(),
{
    reveal(Seq::filter);
    if attributes.len() > 0 {
        lemma_dynamic_attributes_in_order(attributes.drop_last(), values, id, is_dynamic);
        assert(is_dynamic(attributes.last()) == (attributes.last().value is Dynamic));
    }
}

/// To hydrate an element sends, between entering and leaving the instance, one attribute for each
/// dynamic attribute of the element, in order, with its own description and with the value of the
/// context that it refers to. Then it sends one listener for each listener of the element, in order,
/// with the event of the context's listener that it refers to, mounted on the element.
pub proof fn law_how_an_element_is_hydrated<N>(
    node: NodeView,
    element: ElementView,
    context: ContextView<N>,
    instance: ElementId,
    scope: ScopeId,
)
    requires
        node.kind == NodeKindView::Element(element),
    ensures
        ({
            let dynamic = element.attributes.filter(
                |a: TemplateAttributeView| a.value is Dynamic,
            );
            let edits = hydration_edits(node, context, instance, scope);
            &&& edits.len() == 2 + dynamic.len() + element.listeners.len()
            &&& edits[0] == (EditView::EnterTemplateRef { template_ref: instance })
            &&& edits[edits.len() - 1] == EditView::ExitTemplateRef
            &&& forall|k: int|
                0 <= k < dynamic.len() ==> edits[1 + k] == (EditView::SetAttribute {
                    attribute: (#[trigger] dynamic[k]).attribute,
                    value: context.attributes[dynamic[k].value->Dynamic_0 as int],
                    is_static: false,
                    id: node.id,
                })
            &&& forall|k: int|
                0 <= k < element.listeners.len() ==> edits[1 + dynamic.len() + k] == (
                EditView::NewEventListener {
                    listener: ListenerView {
                        event: context.listeners[#[trigger] element.listeners[k] as int].event,
                        mounted_node: Some(
                            GlobalNodeId::TemplateId {
                                template_ref_id: instance,
                                template_node_id: node.id,
                            },
                        ),
                    },
                    scope,
                })
        }),
{
    let is_dynamic = |a: TemplateAttributeView| a.value is Dynamic;
    lemma_dynamic_attributes_in_order(element.attributes, context.attributes, node.id, is_dynamic);
    let dynamic = element.attributes.filter(is_dynamic);
    let set = dynamic_attribute_edits(element.attributes, context.attributes, node.id);
    let edits = hydration_edits(node, context, instance, scope);
    assert forall|k: int| 0 <= k < dynamic.len() implies edits[1 + k] == (EditView::SetAttribute {
        attribute: (#[trigger] dynamic[k]).attribute,
        value: context.attributes[dynamic[k].value->Dynamic_0 as int],
        is_static: false,
        id: node.id,
    }) by {
        assert(edits[1 + k] == set[k]);
    }
}

/// Each dynamic attribute of an element, at whichever position, is set when the element is hydrated,
/// and what is set comes from a dynamic attribute.
pub proof fn law_each_dynamic_attribute_is_filled_in<N>(
    node: NodeView,
    element: ElementView,
    context: ContextView<N>,
    instance: ElementId,
    scope: ScopeId,
    edit: EditView,
)
    requires
        node.kind == NodeKindView::Element(element),
        edit is SetAttribute,
    ensures
        hydration_edits(node, context, instance, scope).contains(edit) <==> exists|i: int|
            0 <= i < element.attributes.len() && (
            #[trigger] element.attributes[i]).value is Dynamic && edit == (EditView::SetAttribute {
                attribute: element.attributes[i].attribute,
                value: context.attributes[element.attributes[i].value->Dynamic_0 as int],
                is_static: false,
                id: node.id,
            }),
{
    let is_dynamic = |a: TemplateAttributeView| a.value is Dynamic;
    let attributes = element.attributes;
    let dynamic = attributes.filter(is_dynamic);
    let edits = hydration_edits(node, context, instance, scope);
    law_how_an_element_is_hydrated(node, element, context, instance, scope);
    if edits.contains(edit) {
        let n = choose|n: int| 0 <= n < edits.len() && edits[n] == edit;
        if n > dynamic.len() && n < edits.len() - 1 {
            let k = n - 1 - dynamic.len();
            assert(element.listeners[k] == element.listeners[k]);
            assert(edits[1 + dynamic.len() + k] is NewEventListener);
        }
        let k = n - 1;
        assert(0 <= k < dynamic.len());
        assert(dynamic[k] == dynamic[k]);
        attributes.lemma_filter_pred(is_dynamic, k);
        assert(dynamic.contains(dynamic[k]));
        attributes.lemma_filter_contains_rev(is_dynamic, dynamic[k]);
        let i = choose|i: int| 0 <= i < attributes.len() && attributes[i] == dynamic[k];
        assert(attributes[i].value is Dynamic);
    }
    if exists|i: int|
        0 <= i < attributes.len() && (#[trigger] attributes[i]).value is Dynamic && edit == (
        EditView::SetAttribute {
            attribute: attributes[i].attribute,
            value: context.attributes[attributes[i].value->Dynamic_0 as int],
            is_static: false,
            id: node.id,
        }) {
        let i = choose|i: int|
            0 <= i < attributes.len() && (#[trigger] attributes[i]).value is Dynamic && edit == (
            EditView::SetAttribute {
                attribute: attributes[i].attribute,
                value: context.attributes[attributes[i].value->Dynamic_0 as int],
                is_static: false,
                id: node.id,
            });
        assert(is_dynamic(attributes[i]));
        attributes.lemma_filter_contains(is_dynamic, i);
        let k = choose|k: int| 0 <= k < dynamic.len() && dynamic[k] == attributes[i];
        assert(edits[1 + k] == edit);
    }
}

/// To change one value of the context changes what is sent for the attributes that refer to it, and
/// nothing else.
pub proof fn law_a_value_shows_where_it_is_used<N>(
    node: NodeView,
    element: ElementView,
    context: ContextView<N>,
    instance: ElementId,
    scope: ScopeId,
    idx: usize,
    value: AttributeValueView,
)
    requires
        node.kind == NodeKindView::Element(element),
        hydratable(node, context),
        idx < context.attributes.len(),
    ensures
        ({
            let dynamic = element.attributes.filter(
                |a: TemplateAttributeView| a.value is Dynamic,
            );
            let changed = ContextView {
                attributes: context.attributes.update(idx as int, value),
                ..context
            };
            let before = hydration_edits(node, context, instance, scope);
            let after = hydration_edits(node, changed, instance, scope);
            &&& before.len() == after.len()
            &&& forall|n: int|
                0 <= n < before.len() ==> (#[trigger] after[n]) == if 1 <= n <= dynamic.len()
                    && dynamic[n - 1].value == TemplateAttributeValueView::Dynamic(idx) {
                    EditView::SetAttribute {
                        attribute: dynamic[n - 1].attribute,
                        value,
                        is_static: false,
                        id: node.id,
                    }
                } else {
                    before[n]
                }
        }),
{
    let is_dynamic = |a: TemplateAttributeView| a.value is Dynamic;
    let attributes = element.attributes;
    let dynamic = attributes.filter(is_dynamic);
    let changed = ContextView {
        attributes: context.attributes.update(idx as int, value),
        ..context
    };
    let before = hydration_edits(node, context, instance, scope);
    let after = hydration_edits(node, changed, instance, scope);
    law_how_an_element_is_hydrated(node, element, context, instance, scope);
    law_how_an_element_is_hydrated(node, element, changed, instance, scope);
    assert forall|n: int| 0 <= n < before.len() implies (#[trigger] after[n]) == if 1 <= n
        <= dynamic.len() && dynamic[n - 1].value == TemplateAttributeValueView::Dynamic(idx) {
        EditView::SetAttribute {
            attribute: dynamic[n - 1].attribute,
            value,
            is_static: false,
            id: node.id,
        }
    } else {
        before[n]
    } by {
        if 1 <= n <= dynamic.len() {
            let one = dynamic[n - 1];
            attributes.lemma_filter_pred(is_dynamic, n - 1);
            assert(dynamic.contains(one));
            attributes.lemma_filter_contains_rev(is_dynamic, one);
            let i = choose|i: int| 0 <= i < attributes.len() && attributes[i] == one;
            assert(attributes[i].value->Dynamic_0 < context.attributes.len());
            assert(after[1 + (n - 1)] == after[n]);
            assert(one.value == TemplateAttributeValueView::Dynamic(one.value->Dynamic_0));
        } else if dynamic.len() < n < before.len() - 1 {
            let k = n - 1 - dynamic.len();
            assert(element.listeners[k] == element.listeners[k]);
            assert(after[1 + dynamic.len() + k] == before[1 + dynamic.len() + k]);
        }
    }
}

/// To hydrate a text sends, between entering and leaving the instance, the whole text of its segments.
pub proof fn law_how_a_text_is_hydrated<N>(
    node: NodeView,
    segments: Seq<TextSegmentView>,
    context: ContextView<N>,
    instance: ElementId,
    scope: ScopeId,
)
    requires
        node.kind == NodeKindView::Text(segments),
    ensures
        hydration_edits(node, context, instance, scope) == seq![
            EditView::EnterTemplateRef { template_ref: instance },
            EditView::SetText {
                text: resolved_text(segments, context.text_segments),
                id: node.id,
            },
            EditView::ExitTemplateRef,
        ],
{
    assert(hydration_edits(node, context, instance, scope) =~= seq![
        EditView::EnterTemplateRef { template_ref: instance },
        EditView::SetText { text: resolved_text(segments, context.text_segments), id: node.id },
        EditView::ExitTemplateRef,
    ]);
}

/// To hydrate a node adds its edits after those that are there, and mounts exactly the listeners that
/// the node refers to, on the node. A listener keeps its event, and no listener comes or goes.
pub proof fn law_what_hydration_changes<N>(
    node: NodeView,
    context: ContextView<N>,
    instance: ElementId,
    scope: ScopeId,
    before: HydrationView,
)
    ensures
        ({
            let after = filled_in(node, context, instance, scope, before);
            &&& after.edits == before.edits + hydration_edits(node, context, instance, scope)
            &&& after.element_stack == before.element_stack
            &&& after.listeners.len() == before.listeners.len()
            &&& forall|i: int|
                0 <= i < before.listeners.len() ==> {
                    &&& (#[trigger] after.listeners[i]).event == before.listeners[i].event
                    &&& after.listeners[i].mounted_node == if node.kind is Element && exists|
                        k: int,
                    |
                        0 <= k < node.kind->Element_0.listeners.len()
                            && #[trigger] node.kind->Element_0.listeners[k] == i {
                        Some(
                            GlobalNodeId::TemplateId {
                                template_ref_id: instance,
                                template_node_id: node.id,
                            },
                        )
                    } else {
                        before.listeners[i].mounted_node
                    }
                }
        }),
{
    if let NodeKindView::Element(element) = node.kind {
        let after = filled_in(node, context, instance, scope, before);
        assert forall|i: int| 0 <= i < before.listeners.len() implies is_index_of(
            element.listeners,
            i,
        ) == exists|k: int|
            0 <= k < element.listeners.len() && #[trigger] element.listeners[k] == i by {}
    }
}

/// What is kept of a hydration is what the difference and the instance hold.
pub proof fn law_what_a_hydration_holds<N>(diff_state: DiffState, template_ref: VTemplateRef<N>)
    ensures
        hydration_state(diff_state, template_ref).edits == diff_state.mutations@,
        hydration_state(diff_state, template_ref).element_stack == diff_state.element_stack@,
        hydration_state(diff_state, template_ref).listeners
            == template_ref.dynamic_context@.listeners,
{
}

/// A dynamic node is entered with one edit and with the node on top of the stack. It is done with two
/// edits: the node is replaced by the number of nodes that were created, counted in 32 bits, and the
/// instance is left. Then the top of the stack is gone.
pub proof fn law_how_a_dynamic_node_is_hydrated(
    node: NodeView,
    instance: ElementId,
    before: HydrationView,
    created: usize,
)
    ensures
        entered(node, instance, before) == (HydrationView {
            edits: before.edits + seq![EditView::EnterTemplateRef { template_ref: instance }],
            element_stack: before.element_stack + seq![
                GlobalNodeId::TemplateId {
                    template_ref_id: instance,
                    template_node_id: node.id,
                },
            ],
            listeners: before.listeners,
        }),
        replaced(node, created, before).edits == before.edits + seq![
            EditView::ReplaceWith { id: node.id, created: created as nat % 0x1_0000_0000 },
            EditView::ExitTemplateRef,
        ],
        before.element_stack.len() == 0 ==> replaced(node, created, before).element_stack.len()
            == 0,
        before.element_stack.len() > 0 ==> replaced(node, created, before).element_stack
            == before.element_stack.take(before.element_stack.len() - 1),
        replaced(node, created, before).listeners == before.listeners,
{
    let number: u64 = created as u64;
    assert(number as u32 == number % 0x1_0000_0000) by (bit_vector);
    assert(entered(node, instance, before).edits =~= before.edits + seq![
        EditView::EnterTemplateRef { template_ref: instance },
    ]);
    assert(entered(node, instance, before).element_stack =~= before.element_stack + seq![
        GlobalNodeId::TemplateId { template_ref_id: instance, template_node_id: node.id },
    ]);
    if before.element_stack.len() > 0 {
        assert(replaced(node, created, before).element_stack =~= before.element_stack.take(
            before.element_stack.len() - 1,
        ));
    }
}

/// A node can be hydrated exactly where none of the indices that it holds is past the end of the list
/// of the context that it goes into.
pub proof fn law_which_nodes_can_be_hydrated<N>(node: NodeView, context: ContextView<N>)
    ensures
        node.kind matches NodeKindView::Element(element) ==> (!hydratable(node, context) <==> {
            ||| exists|i: int|
                0 <= i < element.attributes.len() && (
                #[trigger] element.attributes[i]).value is Dynamic
                    && element.attributes[i].value->Dynamic_0 >= context.attributes.len()
            ||| exists|i: int|
                0 <= i < element.listeners.len() && #[trigger] element.listeners[i]
                    >= context.listeners.len()
        }),
        node.kind matches NodeKindView::Text(segments) ==> (!hydratable(node, context)
            <==> exists|i: int|
            0 <= i < segments.len() && (#[trigger] segments[i]) is Dynamic
                && segments[i]->Dynamic_0 >= context.text_segments.len()),
        node.kind matches NodeKindView::DynamicNode(idx) ==> (!hydratable(node, context) <==> idx
            >= context.nodes.len()),
{
}

/// An element is locally static exactly where there is nothing to fill in: to hydrate any other sends
/// at least one edit between entering and leaving the instance.
pub proof fn law_static_elements_have_nothing_to_fill_in<N>(
    node: NodeView,
    element: ElementView,
    context: ContextView<N>,
    instance: ElementId,
    scope: ScopeId,
)
    requires
        node.kind == NodeKindView::Element(element),
    ensures
        node.kind.locally_static() <==> hydration_edits(node, context, instance, scope) == seq![
            EditView::EnterTemplateRef { template_ref: instance },
            EditView::ExitTemplateRef,
        ],
{
    let is_dynamic = |a: TemplateAttributeView| a.value is Dynamic;
    let attributes = element.attributes;
    let dynamic = attributes.filter(is_dynamic);
    let edits = hydration_edits(node, context, instance, scope);
    law_how_an_element_is_hydrated(node, element, context, instance, scope);
    if node.kind.locally_static() {
        if dynamic.len() > 0 {
            attributes.lemma_filter_pred(is_dynamic, 0);
            assert(dynamic.contains(dynamic[0]));
            attributes.lemma_filter_contains_rev(is_dynamic, dynamic[0]);
            let i = choose|i: int| 0 <= i < attributes.len() && attributes[i] == dynamic[0];
            assert(attributes[i].value is Static);
        }
        assert(edits =~= seq![
            EditView::EnterTemplateRef { template_ref: instance },
            EditView::ExitTemplateRef,
        ]);
    } else if element.listeners.len() == 0 {
        let i = choose|i: int|
            0 <= i < attributes.len() && !((#[trigger] attributes[i]).value is Static);
        assert(is_dynamic(attributes[i]));
        attributes.lemma_filter_contains(is_dynamic, i);
    }
}

/// A text is locally static exactly where it shows the same in every context that has its texts.
pub proof fn law_static_texts_show_the_same(segments: Seq<TextSegmentView>)
    ensures
        NodeKindView::Text(segments).locally_static() <==> forall|
            a: Seq<Seq<char>>,
            b: Seq<Seq<char>>,
        |
            text_resolvable(segments, a) && text_resolvable(segments, b) ==> #[trigger]
            resolved_text(segments, a) == #[trigger] resolved_text(segments, b),
{
    if NodeKindView::Text(segments).locally_static() {
        assert forall|a: Seq<Seq<char>>, b: Seq<Seq<char>>| #[trigger]
            resolved_text(segments, a) == #[trigger] resolved_text(segments, b) by {
            lemma_static_text(segments, a, b);
        }
    } else {
        let i = choose|i: int| 0 <= i < segments.len() && !((#[trigger] segments[i]) is Static);
        let idx = segments[i]->Dynamic_0;
        let short = Seq::new((usize::MAX + 1) as nat, |k: int| Seq::<char>::empty());
        let long = short.update(idx as int, seq!['x']);
        lemma_longer_text(segments, short, long, idx, segments.len());
        assert(segments.take(segments.len() as int) =~= segments);
        assert(resolved_text(segments, short).len() < resolved_text(segments, long).len());
    }
}

proof fn lemma_longer_text(
    segments: Seq<TextSegmentView>,
    short: Seq<Seq<char>>,
    long: Seq<Seq<char>>,
    idx: usize,
    n: nat,
)
    requires
        n <= segments.len(),
        short.len() > usize::MAX,
        short[idx as int].len() == 0,
        long == short.update(idx as int, seq!['x']),
    ensures
        resolved_text(segments.take(n as int), short).len() <= resolved_text(
            segments.take(n as int),
            long,
        ).len(),
        (exists|i: int|
            0 <= i < n && #[trigger] segments[i] == TextSegmentView::Dynamic(idx))
            ==> resolved_text(segments.take(n as int), short).len() < resolved_text(
            segments.take(n as int),
            long,
        ).len(),
    decreases n,
{
    if n > 0 {
        lemma_longer_text(segments, short, long, idx, (n - 1) as nat);
        assert(segments.take(n as int).drop_last() =~= segments.take(n - 1));
        assert(segments.take(n as int).last() == segments[n - 1]);
        if let TextSegmentView::Dynamic(other) = segments[n - 1] {
            if other != idx {
                assert(long[other as int] == short[other as int]);
            }
        }
    }
}

/// To hydrate a node of an instance that is mounted, with a value for each of its dynamic parts, sends
/// what hydrates it, mounts its listeners and changes nothing else. Of a dynamic node it returns the
/// node of the context that goes in its place.
pub proof fn law_hydrating_a_node<'b, Attributes, V, Children, Listeners, TextSegments, Text, N>(
    node: &TemplateNode<Attributes, V, Children, Listeners, TextSegments, Text>,
) where
    Attributes: AsSlice<TemplateAttribute<V>>,
    V: TemplateValue,
    Children: AsSlice<TemplateNodeId>,
    Listeners: AsSlice<usize>,
    TextSegments: AsSlice<TextTemplateSegment<Text>>,
    Text: AsText,

    ensures
        forall|
            diff: &mut DiffState<'b>,
            template_ref: &mut VTemplateRef<'b, N>,
            res: Option<&'b N>,
        |
            template_ref.id is Some && hydratable(node@, template_ref.dynamic_context@)
                && #[trigger] call_ensures(
                TemplateNode::<Attributes, V, Children, Listeners, TextSegments, Text>::hydrate::<N>,
                (node, diff, template_ref),
                res,
            ) ==> {
                let instance = template_ref.id->0;
                let context = template_ref.dynamic_context@;
                let after = final(template_ref).dynamic_context@;
                &&& final(template_ref).id == template_ref.id
                &&& final(template_ref).template_id == template_ref.template_id
                &&& after.nodes == context.nodes
                &&& after.text_segments == context.text_segments
                &&& after.attributes == context.attributes
                &&& after.listeners.len() == context.listeners.len()
                &&& forall|i: int|
                    0 <= i < context.listeners.len() ==> {
                        &&& (#[trigger] after.listeners[i]).event == context.listeners[i].event
                        &&& after.listeners[i].mounted_node == if node@.kind is Element && exists|
                            k: int,
                        |
                            0 <= k < node@.kind->Element_0.listeners.len()
                                && #[trigger] node@.kind->Element_0.listeners[k] == i {
                            Some(
                                GlobalNodeId::TemplateId {
                                    template_ref_id: instance,
                                    template_node_id: node.id,
                                },
                            )
                        } else {
                            context.listeners[i].mounted_node
                        }
                    }
                &&& final(diff).scope == diff.scope
                &&& final(diff).scope_bump == diff.scope_bump
                &&& node@.kind is DynamicNode ==> {
                    &&& res is Some
                    &&& *res->0 == context.nodes[node@.kind->DynamicNode_0 as int]
                    &&& final(diff).mutations@ == diff.mutations@ + seq![
                        EditView::EnterTemplateRef { template_ref: instance },
                    ]
                    &&& final(diff).element_stack@ == diff.element_stack@ + seq![
                        GlobalNodeId::TemplateId {
                            template_ref_id: instance,
                            template_node_id: node.id,
                        },
                    ]
                }
                &&& !(node@.kind is DynamicNode) ==> {
                    &&& res is None
                    &&& final(diff).mutations@ == diff.mutations@ + hydration_edits(
                        node@,
                        context,
                        instance,
                        diff.scope,
                    )
                    &&& final(diff).element_stack@ == diff.element_stack@
                }
            },
{
    assert forall|
        diff: &mut DiffState<'b>,
        template_ref: &mut VTemplateRef<'b, N>,
        res: Option<&'b N>,
    |
        template_ref.id is Some && hydratable(node@, template_ref.dynamic_context@) && #[trigger] call_ensures(
            TemplateNode::<Attributes, V, Children, Listeners, TextSegments, Text>::hydrate::<N>,
            (node, diff, template_ref),
            res,
        ) implies {
        let instance = template_ref.id->0;
        let context = template_ref.dynamic_context@;
        let after = final(template_ref).dynamic_context@;
        &&& after.listeners.len() == context.listeners.len()
        &&& forall|i: int|
            0 <= i < context.listeners.len() ==> {
                &&& (#[trigger] after.listeners[i]).event == context.listeners[i].event
                &&& after.listeners[i].mounted_node == if node@.kind is Element && exists|k: int|
                    0 <= k < node@.kind->Element_0.listeners.len()
                        && #[trigger] node@.kind->Element_0.listeners[k] == i {
                    Some(
                        GlobalNodeId::TemplateId {
                            template_ref_id: instance,
                            template_node_id: node.id,
                        },
                    )
                } else {
                    context.listeners[i].mounted_node
                }
            }
    } by {
        let before = HydrationView {
            edits: diff.mutations@,
            element_stack: diff.element_stack@,
            listeners: template_ref.dynamic_context@.listeners,
        };
        law_what_hydration_changes(
            node@,
            template_ref.dynamic_context@,
            template_ref.id->0,
            diff.scope,
            before,
        );
    }
}

/// To go on after a dynamic node was created sends that it is replaced by the nodes that were created,
/// counted in 32 bits, and that the instance is left. It takes the node off the stack.
pub proof fn law_going_on_after_a_dynamic_node<'b, Attributes, V, Children, Listeners, TextSegments, Text>(
    node: &TemplateNode<Attributes, V, Children, Listeners, TextSegments, Text>,
    created: usize,
) where
    Attributes: AsSlice<TemplateAttribute<V>>,
    V: TemplateValue,
    Children: AsSlice<TemplateNodeId>,
    Listeners: AsSlice<usize>,
    TextSegments: AsSlice<TextTemplateSegment<Text>>,
    Text: AsText,

    ensures
        forall|diff: &mut DiffState<'b>|
            #[trigger] call_ensures(
                TemplateNode::<Attributes, V, Children, Listeners, TextSegments, Text>::hydrate_created,
                (node, diff, created),
                (),
            ) ==> {
                &&& final(diff).mutations@ == diff.mutations@ + seq![
                    EditView::ReplaceWith {
                        id: node.id,
                        created: created as nat % 0x1_0000_0000,
                    },
                    EditView::ExitTemplateRef,
                ]
                &&& diff.element_stack@.len() > 0 ==> final(diff).element_stack@
                    == diff.element_stack@.take(diff.element_stack@.len() - 1)
                &&& diff.element_stack@.len() == 0 ==> final(diff).element_stack@.len() == 0
                &&& final(diff).scope == diff.scope
                &&& final(diff).scope_bump == diff.scope_bump
            },
{
    let number: u64 = created as u64;
    assert(number as u32 == number % 0x1_0000_0000) by (bit_vector);
}

/// A node says that it can be hydrated exactly where none of its indices is past the end of the list of
/// the context that it goes into.
pub proof fn law_is_hydratable_tells<'b, Attributes, V, Children, Listeners, TextSegments, Text, N>(
    node: &TemplateNode<Attributes, V, Children, Listeners, TextSegments, Text>,
    context: &TemplateContext<'b, N>,
    res: bool,
) where
    Attributes: AsSlice<TemplateAttribute<V>>,
    V: TemplateValue,
    Children: AsSlice<TemplateNodeId>,
    Listeners: AsSlice<usize>,
    TextSegments: AsSlice<TextTemplateSegment<Text>>,
    Text: AsText,

    requires
        call_ensures(
            TemplateNode::<Attributes, V, Children, Listeners, TextSegments, Text>::is_hydratable::<N>,
            (node, context),
            res,
        ),
    ensures
        res == hydratable(node@, context@),
{
}

/// The scope and its arena are the current ones.
pub proof fn law_the_current_scope<'b>(diff: &DiffState<'b>, scope: ScopeId, bump: &'b Bump)
    ensures
        call_ensures(DiffState::<'b>::current_scope, (diff,), scope) ==> scope == diff.scope,
        call_ensures(DiffState::<'b>::current_scope_bump, (diff,), bump) ==> bump
            == diff.scope_bump,
{
}

} // verus!
