//! Instances of templates, and how a whole instance is hydrated.
//!
//! A dynamic node has to be created before it can be put in its place, and only the owner of the
//! document can do that. So hydration runs up to such a node, names it, and is resumed with the
//! number of nodes that were created.
use vstd::prelude::*;

use crate::context::{ContextView, TemplateContext};
use crate::create::template_edits;
use crate::hydrate::{
    entered, hydratable, hydration_edits, hydration_state, instance_node, is_index_of,
    listener_edits, listeners_after, replaced, replacement_edits, DiffState, HydrationView,
};
use crate::ids::{ElementId, GlobalNodeId, RendererTemplateId, ScopeId, TemplateNodeId};
use crate::location::TemplateId;
use crate::mutations::{EditView, ListenerView};
use crate::node::{NodeKindView, NodeView};
use crate::template::{OwnedTemplate, StaticTemplate, Template, TemplateView};

verus! {

/// A reference to a template along with any context needed to hydrate it.
pub struct VTemplateRef<'a, N> {
    /// The element that the instance is mounted as.
    pub id: Option<ElementId>,
    /// The template.
    pub template_id: TemplateId,
    /// The values of the dynamic parts.
    pub dynamic_context: TemplateContext<'a, N>,
}

/// A dynamic node that has to be created before hydration can go on.
pub struct PendingNode<'a, N> {
    /// Its position among the nodes that have a dynamic part.
    pub position: usize,
    /// The node to create.
    pub node: &'a N,
}

/// The nodes with dynamic parts are in the template, and the context has a value for each of those
/// parts.
pub open spec fn all_hydratable<N>(template: TemplateView, context: ContextView<N>) -> bool {
    let ids = template.dynamic_mapping.all_dynamic();
    forall|i: int|
        0 <= i < ids.len() ==> (#[trigger] ids[i]).0 < template.nodes.len() && hydratable(
            template.nodes[ids[i].0 as int],
            context,
        )
}

/// The first position from `from` on that holds a dynamic node, or the end of the list.
pub open spec fn next_dynamic_node(
    nodes: Seq<NodeView>,
    ids: Seq<TemplateNodeId>,
    from: int,
) -> int
    decreases ids.len() - from,
{
    if from >= ids.len() {
        ids.len() as int
    } else if nodes[ids[from].0 as int].kind is DynamicNode {
        from
    } else {
        next_dynamic_node(nodes, ids, from + 1)
    }
}

/// The edits that hydrate a list of elements and texts.
pub open spec fn all_hydration_edits<N>(
    nodes: Seq<NodeView>,
    ids: Seq<TemplateNodeId>,
    context: ContextView<N>,
    instance: ElementId,
    scope: ScopeId,
) -> Seq<EditView>
    decreases ids.len(),
{
    if ids.len() == 0 {
        Seq::empty()
    } else {
        all_hydration_edits(nodes, ids.drop_last(), context, instance, scope) + hydration_edits(
            nodes[ids.last().0 as int],
            context,
            instance,
            scope,
        )
    }
}

/// The listeners after a list of elements and texts was hydrated.
pub open spec fn listeners_after_all(
    nodes: Seq<NodeView>,
    ids: Seq<TemplateNodeId>,
    listeners: Seq<ListenerView>,
    instance: ElementId,
) -> Seq<ListenerView>
    decreases ids.len(),
{
    if ids.len() == 0 {
        listeners
    } else {
        listeners_after(
            nodes[ids.last().0 as int],
            listeners_after_all(nodes, ids.drop_last(), listeners, instance),
            instance,
        )
    }
}

/// Hydration of the nodes from the position `from` on, up to the first dynamic node: what it leaves,
/// and the position of that node. Without one it runs to the end.
pub open spec fn hydrated_from<N>(
    template: TemplateView,
    context: ContextView<N>,
    instance: ElementId,
    scope: ScopeId,
    from: int,
    before: HydrationView,
) -> (HydrationView, Option<int>) {
    let ids = template.dynamic_mapping.all_dynamic();
    let stop = next_dynamic_node(template.nodes, ids, from);
    let done = ids.subrange(from, stop);
    let after = HydrationView {
        edits: before.edits + all_hydration_edits(template.nodes, done, context, instance, scope),
        element_stack: before.element_stack,
        listeners: listeners_after_all(template.nodes, done, before.listeners, instance),
    };
    if stop == ids.len() {
        (after, None)
    } else {
        (
            entered(template.nodes[ids[stop].0 as int], instance, after),
            Some(stop),
        )
    }
}

/// The number and the events of the listeners are the same.
pub open spec fn same_events(a: Seq<ListenerView>, b: Seq<ListenerView>) -> bool {
    &&& a.len() == b.len()
    &&& forall|i: int| 0 <= i < a.len() ==> (#[trigger] a[i]).event == b[i].event
}

proof fn lemma_hydration_edits_ignore_mounts<N>(
    node: NodeView,
    a: ContextView<N>,
    b: ContextView<N>,
    instance: ElementId,
    scope: ScopeId,
)
    requires
        hydratable(node, a),
        same_events(a.listeners, b.listeners),
        a.nodes == b.nodes,
        a.text_segments == b.text_segments,
        a.attributes == b.attributes,
    ensures
        hydratable(node, b),
        hydration_edits(node, a, instance, scope) == hydration_edits(node, b, instance, scope),
{
    match node.kind {
        NodeKindView::Element(element) => {
            let id = instance_node(instance, node.id);
            let listeners_a = listener_edits(element.listeners, a.listeners, id, scope);
            let listeners_b = listener_edits(element.listeners, b.listeners, id, scope);
            assert forall|i: int| 0 <= i < listeners_a.len() implies listeners_a[i]
                == listeners_b[i] by {
                assert(element.listeners[i] < a.listeners.len());
                assert(a.listeners[element.listeners[i] as int].event
                    == b.listeners[element.listeners[i] as int].event);
            }
            assert(listeners_a =~= listeners_b);
        },
        _ => {},
    }
}

proof fn lemma_mounting_keeps_events(
    node: NodeView,
    listeners: Seq<ListenerView>,
    instance: ElementId,
)
    ensures
        same_events(listeners_after(node, listeners, instance), listeners),
{
}

/// The contract of one run of hydration from the position `from` on, from what was `before` to what
/// is there `after`, and the dynamic node that it stopped at.
pub open spec fn is_hydration_run<N>(
    template: TemplateView,
    context: ContextView<N>,
    instance: ElementId,
    scope: ScopeId,
    from: int,
    before: HydrationView,
    after: HydrationView,
    pending: Option<PendingNode<N>>,
) -> bool {
    let (state, stop) = hydrated_from(template, context, instance, scope, from, before);
    let ids = template.dynamic_mapping.all_dynamic();
    &&& after == state
    &&& match stop {
        None => pending is None,
        Some(position) => {
            &&& pending is Some
            &&& pending->0.position == position
            &&& template.nodes[ids[position].0 as int].kind matches NodeKindView::DynamicNode(idx)
            &&& *pending->0.node == context.nodes[idx as int]
        },
    }
}

impl<'a, N> VTemplateRef<'a, N> {
    /// Whether the instance can be hydrated: it is mounted if any node has a dynamic part, these nodes
    /// are in the template, and the context has a value for each of their dynamic parts.
    pub fn is_hydratable(&self, template: &Template) -> (res: bool)
        ensures
            res == {
                &&& template@.dynamic_mapping.all_dynamic().len() > 0 ==> self.id is Some
                &&& all_hydratable(template@, self.dynamic_context@)
            },
    {
        let ids: Vec<TemplateNodeId> = template.all_dynamic();
        if ids.len() > 0 && self.id.is_none() {
            return false;
        }
        let mut i: usize = 0;
        while i < ids.len()
            invariant
                i <= ids.len(),
                ids@ == template@.dynamic_mapping.all_dynamic(),
                forall|j: int|
                    0 <= j < i ==> (#[trigger] ids@[j]).0 < template@.nodes.len() && hydratable(
                        template@.nodes[ids@[j].0 as int],
                        self.dynamic_context@,
                    ),
            decreases ids.len() - i,
        {
            let id: usize = ids[i].0;
            let ready = match template {
                Template::Static(template) => id < template.nodes.len()
                    && template.nodes[id].is_hydratable(&self.dynamic_context),
                Template::Owned(template) => id < template.nodes.len()
                    && template.nodes[id].is_hydratable(&self.dynamic_context),
            };
            if !ready {
                assert(!(ids@[i as int].0 < template@.nodes.len() && hydratable(
                    template@.nodes[ids@[i as int].0 as int],
                    self.dynamic_context@,
                )));
                return false;
            }
            i += 1;
        }
        true
    }

    /// Updates the instance with content from the dynamic context, up to the first dynamic node,
    /// which is returned. It has to be created, and [`VTemplateRef::resume`] goes on from there.
    /// Without such a node the instance is done. It has to be mounted only if any node of the template
    /// has a dynamic part; otherwise there is nothing to update.
    pub fn hydrate(&mut self, template: &Template, diff_state: &mut DiffState<'a>) -> (res: Option<
        PendingNode<'a, N>,
    >)
        requires
            template@.dynamic_mapping.all_dynamic().len() > 0 ==> old(self).id is Some,
            all_hydratable(template@, old(self).dynamic_context@),
        ensures
            final(self).id == old(self).id,
            final(self).template_id == old(self).template_id,
            final(self).dynamic_context@ == (ContextView {
                listeners: final(self).dynamic_context@.listeners,
                ..old(self).dynamic_context@
            }),
            final(diff_state).scope == old(diff_state).scope,
            final(diff_state).scope_bump == old(diff_state).scope_bump,
            is_hydration_run(
                template@,
                old(self).dynamic_context@,
                old(self).id->0,
                old(diff_state).scope,
                0,
                hydration_state(*old(diff_state), *old(self)),
                hydration_state(*final(diff_state), *final(self)),
                res,
            ),
    {
        self.hydrate_from(template, diff_state, 0)
    }

    /// Goes on after the dynamic node at the given position was created as `created` nodes, up to
    /// the next dynamic node.
    pub fn resume(
        &mut self,
        template: &Template,
        diff_state: &mut DiffState<'a>,
        position: usize,
        created: usize,
    ) -> (res: Option<PendingNode<'a, N>>)
        requires
            old(self).id is Some,
            all_hydratable(template@, old(self).dynamic_context@),
            position < template@.dynamic_mapping.all_dynamic().len(),
            template@.nodes[template@.dynamic_mapping.all_dynamic()[position as int].0 as int].kind is DynamicNode,
        ensures
            final(self).id == old(self).id,
            final(self).template_id == old(self).template_id,
            final(self).dynamic_context@ == (ContextView {
                listeners: final(self).dynamic_context@.listeners,
                ..old(self).dynamic_context@
            }),
            final(diff_state).scope == old(diff_state).scope,
            final(diff_state).scope_bump == old(diff_state).scope_bump,
            is_hydration_run(
                template@,
                old(self).dynamic_context@,
                old(self).id->0,
                old(diff_state).scope,
                position + 1,
                replaced(
                    template@.nodes[template@.dynamic_mapping.all_dynamic()[position as int].0 as int],
                    created,
                    hydration_state(*old(diff_state), *old(self)),
                ),
                hydration_state(*final(diff_state), *final(self)),
                res,
            ),
    {
        let ids: Vec<TemplateNodeId> = template.all_dynamic();
        assert(position < ids.len());
        let id: usize = ids[position].0;
        match template {
            Template::Static(template) => template.nodes[id].hydrate_created(diff_state, created),
            Template::Owned(template) => template.nodes[id].hydrate_created(diff_state, created),
        }
        self.hydrate_from(template, diff_state, position + 1)
    }

    fn hydrate_from(
        &mut self,
        template: &Template,
        diff_state: &mut DiffState<'a>,
        from: usize,
    ) -> (res: Option<PendingNode<'a, N>>)
        requires
            template@.dynamic_mapping.all_dynamic().len() > 0 ==> old(self).id is Some,
            all_hydratable(template@, old(self).dynamic_context@),
            from <= template@.dynamic_mapping.all_dynamic().len(),
        ensures
            final(self).id == old(self).id,
            final(self).template_id == old(self).template_id,
            final(self).dynamic_context@ == (ContextView {
                listeners: final(self).dynamic_context@.listeners,
                ..old(self).dynamic_context@
            }),
            final(diff_state).scope == old(diff_state).scope,
            final(diff_state).scope_bump == old(diff_state).scope_bump,
            is_hydration_run(
                template@,
                old(self).dynamic_context@,
                old(self).id->0,
                old(diff_state).scope,
                from as int,
                hydration_state(*old(diff_state), *old(self)),
                hydration_state(*final(diff_state), *final(self)),
                res,
            ),
    {
        let ids: Vec<TemplateNodeId> = template.all_dynamic();
        let ghost nodes = template@.nodes;
        let ghost context = self.dynamic_context@;
        let ghost instance = self.id->0;
        let ghost scope = diff_state.scope;
        let ghost before = hydration_state(*diff_state, *self);
        let mut i: usize = from;
        assert(before.edits =~= before.edits + all_hydration_edits(
            nodes,
            ids@.subrange(from as int, from as int),
            context,
            instance,
            scope,
        ));
        while i < ids.len()
            invariant
                from <= i <= ids.len(),
                ids@ == template@.dynamic_mapping.all_dynamic(),
                nodes == template@.nodes,
                context == old(self).dynamic_context@,
                instance == old(self).id->0,
                ids.len() > 0 ==> old(self).id is Some,
                scope == old(diff_state).scope,
                before == hydration_state(*old(diff_state), *old(self)),
                all_hydratable(template@, context),
                self.id == old(self).id,
                self.template_id == old(self).template_id,
                self.dynamic_context@ == (ContextView {
                    listeners: self.dynamic_context@.listeners,
                    ..context
                }),
                same_events(self.dynamic_context@.listeners, context.listeners),
                diff_state.scope == scope,
                diff_state.scope_bump == old(diff_state).scope_bump,
                diff_state.element_stack@ == before.element_stack,
                diff_state.mutations@ == before.edits + all_hydration_edits(
                    nodes,
                    ids@.subrange(from as int, i as int),
                    context,
                    instance,
                    scope,
                ),
                self.dynamic_context@.listeners == listeners_after_all(
                    nodes,
                    ids@.subrange(from as int, i as int),
                    before.listeners,
                    instance,
                ),
                next_dynamic_node(nodes, ids@, from as int) == next_dynamic_node(
                    nodes,
                    ids@,
                    i as int,
                ),
            decreases ids.len() - i,
        {
            let ghost next = ids@.subrange(from as int, i + 1);
            assert(next.drop_last() =~= ids@.subrange(from as int, i as int));
            let id: usize = ids[i].0;
            let ghost node = nodes[id as int];
            proof {
                assert(hydratable(node, context));
                lemma_hydration_edits_ignore_mounts(
                    node,
                    context,
                    self.dynamic_context@,
                    instance,
                    scope,
                );
                lemma_mounting_keeps_events(node, self.dynamic_context@.listeners, instance);
            }
            let pending: Option<&'a N> = match template {
                Template::Static(template) => template.nodes[id].hydrate(diff_state, self),
                Template::Owned(template) => template.nodes[id].hydrate(diff_state, self),
            };
            if let Some(pending_node) = pending {
                return Some(PendingNode { position: i, node: pending_node });
            }
            i += 1;
            assert(diff_state.mutations@ =~= before.edits + all_hydration_edits(
                nodes,
                next,
                context,
                instance,
                scope,
            ));
        }
        None
    }
}

/// What creating a dynamic node outside of this library adds to the changes, and how many nodes it
/// leaves on the renderer's stack.
pub struct Creation {
    pub edits: Seq<EditView>,
    pub created: usize,
}

/// Hydration from the position `from` on to the end, where the dynamic node at each position is
/// created as `creations` says and hydration is resumed each time.
pub open spec fn hydrated_to_the_end<N>(
    template: TemplateView,
    context: ContextView<N>,
    instance: ElementId,
    scope: ScopeId,
    creations: spec_fn(int) -> Creation,
    from: int,
    before: HydrationView,
) -> HydrationView
    decreases template.dynamic_mapping.all_dynamic().len() - from,
{
    let ids = template.dynamic_mapping.all_dynamic();
    let now = ContextView { listeners: before.listeners, ..context };
    let (state, stop) = hydrated_from(template, now, instance, scope, from, before);
    match stop {
        None => state,
        Some(position) => {
            proof {
                lemma_next_dynamic_node(template.nodes, ids, from);
            }
            let created = HydrationView { edits: state.edits + creations(position).edits, ..state };
            hydrated_to_the_end(
                template,
                context,
                instance,
                scope,
                creations,
                position + 1,
                replaced(
                    template.nodes[ids[position].0 as int],
                    creations(position).created,
                    created,
                ),
            )
        },
    }
}

/// The position that is found is the first of its kind.
pub proof fn lemma_next_dynamic_node(nodes: Seq<NodeView>, ids: Seq<TemplateNodeId>, from: int)
    ensures
        from <= ids.len() ==> from <= next_dynamic_node(nodes, ids, from) <= ids.len(),
        from > ids.len() ==> next_dynamic_node(nodes, ids, from) == ids.len(),
        next_dynamic_node(nodes, ids, from) < ids.len() ==> nodes[ids[next_dynamic_node(
            nodes,
            ids,
            from,
        )].0 as int].kind is DynamicNode,
        forall|k: int|
            from <= k < next_dynamic_node(nodes, ids, from) ==> !(nodes[(
            #[trigger] ids[k]).0 as int].kind is DynamicNode),
    decreases ids.len() - from,
{
    if from < ids.len() && !(nodes[ids[from].0 as int].kind is DynamicNode) {
        lemma_next_dynamic_node(nodes, ids, from + 1);
    }
}

/// The edits for the node at one position, with its creation where it is a dynamic node.
pub open spec fn position_edits<N>(
    template: TemplateView,
    context: ContextView<N>,
    instance: ElementId,
    scope: ScopeId,
    creations: spec_fn(int) -> Creation,
    position: int,
) -> Seq<EditView> {
    let node = template.nodes[template.dynamic_mapping.all_dynamic()[position].0 as int];
    match node.kind {
        NodeKindView::DynamicNode(_) => seq![EditView::EnterTemplateRef { template_ref: instance }]
            + creations(position).edits + replacement_edits(node, creations(position).created),
        _ => hydration_edits(node, context, instance, scope),
    }
}

/// The edits for the nodes at the positions from `from` up to `to`, one after the other.
pub open spec fn positions_edits<N>(
    template: TemplateView,
    context: ContextView<N>,
    instance: ElementId,
    scope: ScopeId,
    creations: spec_fn(int) -> Creation,
    from: int,
    to: int,
) -> Seq<EditView>
    decreases to - from,
{
    if to <= from {
        Seq::empty()
    } else {
        positions_edits(template, context, instance, scope, creations, from, to - 1)
            + position_edits(template, context, instance, scope, creations, to - 1)
    }
}

proof fn lemma_positions_edits_split<N>(
    template: TemplateView,
    context: ContextView<N>,
    instance: ElementId,
    scope: ScopeId,
    creations: spec_fn(int) -> Creation,
    a: int,
    b: int,
    c: int,
)
    requires
        a <= b <= c,
    ensures
        positions_edits(template, context, instance, scope, creations, a, c) == positions_edits(
            template,
            context,
            instance,
            scope,
            creations,
            a,
            b,
        ) + positions_edits(template, context, instance, scope, creations, b, c),
    decreases c - b,
{
    if b < c {
        lemma_positions_edits_split(template, context, instance, scope, creations, a, b, c - 1);
    }
    assert(positions_edits(template, context, instance, scope, creations, a, c)
        =~= positions_edits(template, context, instance, scope, creations, a, b) + positions_edits(
        template,
        context,
        instance,
        scope,
        creations,
        b,
        c,
    ));
}

/// Up to a dynamic node the edits do not depend on what gets created, nor on what is mounted.
proof fn lemma_positions_without_dynamic_nodes<N>(
    template: TemplateView,
    context: ContextView<N>,
    now: ContextView<N>,
    instance: ElementId,
    scope: ScopeId,
    creations: spec_fn(int) -> Creation,
    from: int,
    to: int,
)
    requires
        all_hydratable(template, context),
        same_events(context.listeners, now.listeners),
        now == (ContextView { listeners: now.listeners, ..context }),
        0 <= from <= to <= template.dynamic_mapping.all_dynamic().len(),
        forall|k: int|
            from <= k < to ==> !(template.nodes[(
            #[trigger] template.dynamic_mapping.all_dynamic()[k]).0 as int].kind is DynamicNode),
    ensures
        positions_edits(template, context, instance, scope, creations, from, to)
            == all_hydration_edits(
            template.nodes,
            template.dynamic_mapping.all_dynamic().subrange(from, to),
            now,
            instance,
            scope,
        ),
    decreases to - from,
{
    let ids = template.dynamic_mapping.all_dynamic();
    if from < to {
        let done = ids.subrange(from, to);
        assert(done.drop_last() =~= ids.subrange(from, to - 1));
        assert(done.last() == ids[to - 1]);
        lemma_positions_without_dynamic_nodes(
            template,
            context,
            now,
            instance,
            scope,
            creations,
            from,
            to - 1,
        );
        lemma_hydration_edits_ignore_mounts(
            template.nodes[ids[to - 1].0 as int],
            context,
            now,
            instance,
            scope,
        );
    }
}

proof fn lemma_listeners_after_all_keep_events(
    nodes: Seq<NodeView>,
    ids: Seq<TemplateNodeId>,
    listeners: Seq<ListenerView>,
    instance: ElementId,
)
    ensures
        same_events(listeners_after_all(nodes, ids, listeners, instance), listeners),
    decreases ids.len(),
{
    if ids.len() > 0 {
        let before = listeners_after_all(nodes, ids.drop_last(), listeners, instance);
        lemma_listeners_after_all_keep_events(nodes, ids.drop_last(), listeners, instance);
        lemma_mounting_keeps_events(nodes[ids.last().0 as int], before, instance);
    }
}

proof fn lemma_listeners_after_all_split(
    nodes: Seq<NodeView>,
    ids: Seq<TemplateNodeId>,
    listeners: Seq<ListenerView>,
    instance: ElementId,
    a: int,
    b: int,
    c: int,
)
    requires
        0 <= a <= b <= c <= ids.len(),
    ensures
        listeners_after_all(nodes, ids.subrange(a, c), listeners, instance) == listeners_after_all(
            nodes,
            ids.subrange(b, c),
            listeners_after_all(nodes, ids.subrange(a, b), listeners, instance),
            instance,
        ),
    decreases c - b,
{
    if b < c {
        lemma_listeners_after_all_split(nodes, ids, listeners, instance, a, b, c - 1);
        assert(ids.subrange(a, c).drop_last() =~= ids.subrange(a, c - 1));
        assert(ids.subrange(b, c).drop_last() =~= ids.subrange(b, c - 1));
    }
}

/// A whole hydration, interrupted at every dynamic node and resumed after it, visits the nodes with a
/// dynamic part one after the other. It sends the edits of each in turn, leaves the stack of elements
/// as it was, and mounts the listeners of each node. It is required of creating a dynamic node that
/// it leaves the stack and the listeners alone.
pub proof fn law_whole_hydration<N>(
    template: TemplateView,
    context: ContextView<N>,
    instance: ElementId,
    scope: ScopeId,
    creations: spec_fn(int) -> Creation,
    from: int,
    before: HydrationView,
)
    requires
        all_hydratable(template, context),
        same_events(context.listeners, before.listeners),
        0 <= from <= template.dynamic_mapping.all_dynamic().len(),
    ensures
        hydrated_to_the_end(template, context, instance, scope, creations, from, before) == (
        HydrationView {
            edits: before.edits + positions_edits(
                template,
                context,
                instance,
                scope,
                creations,
                from,
                template.dynamic_mapping.all_dynamic().len() as int,
            ),
            element_stack: before.element_stack,
            listeners: listeners_after_all(
                template.nodes,
                template.dynamic_mapping.all_dynamic().subrange(
                    from,
                    template.dynamic_mapping.all_dynamic().len() as int,
                ),
                before.listeners,
                instance,
            ),
        }),
    decreases template.dynamic_mapping.all_dynamic().len() - from,
{
    let ids = template.dynamic_mapping.all_dynamic();
    let nodes = template.nodes;
    let end = ids.len() as int;
    let now = ContextView { listeners: before.listeners, ..context };
    let (state, stop) = hydrated_from(template, now, instance, scope, from, before);
    let position = next_dynamic_node(nodes, ids, from);
    lemma_next_dynamic_node(nodes, ids, from);
    lemma_positions_without_dynamic_nodes(
        template,
        context,
        now,
        instance,
        scope,
        creations,
        from,
        position,
    );
    if position < end {
        let done = ids.subrange(from, position);
        let node = nodes[ids[position].0 as int];
        let created = HydrationView { edits: state.edits + creations(position).edits, ..state };
        let after = replaced(node, creations(position).created, created);
        lemma_listeners_after_all_keep_events(nodes, done, before.listeners, instance);
        law_whole_hydration(template, context, instance, scope, creations, position + 1, after);
        assert(after.element_stack =~= before.element_stack);
        lemma_positions_edits_split(
            template,
            context,
            instance,
            scope,
            creations,
            from,
            position,
            end,
        );
        lemma_positions_edits_split(
            template,
            context,
            instance,
            scope,
            creations,
            position,
            position + 1,
            end,
        );
        let one = positions_edits(
            template,
            context,
            instance,
            scope,
            creations,
            position,
            position + 1,
        );
        let own = position_edits(template, context, instance, scope, creations, position);
        assert(positions_edits(template, context, instance, scope, creations, position, position)
            =~= Seq::empty());
        assert(one =~= own);
        let first = positions_edits(
            template,
            context,
            instance,
            scope,
            creations,
            from,
            position,
        );
        let rest = positions_edits(
            template,
            context,
            instance,
            scope,
            creations,
            position + 1,
            end,
        );
        assert(after.edits =~= before.edits + first + own);
        assert(after.edits + rest =~= before.edits + (first + (own + rest)));
        lemma_listeners_after_all_split(
            nodes,
            ids,
            before.listeners,
            instance,
            from,
            position,
            end,
        );
        lemma_listeners_after_all_split(
            nodes,
            ids,
            after.listeners,
            instance,
            position,
            position + 1,
            end,
        );
        let single = ids.subrange(position, position + 1);
        assert(single.drop_last() =~= Seq::empty());
        assert(single.last() == ids[position]);
        assert(listeners_after_all(nodes, single.drop_last(), after.listeners, instance)
            == after.listeners);
        assert(listeners_after_all(nodes, single, after.listeners, instance) == after.listeners);
    }
}

/// To hydrate an instance again sends the same edits: they do not depend on where its listeners are
/// mounted.
pub proof fn law_hydrating_again_sends_the_same<N>(
    template: TemplateView,
    a: ContextView<N>,
    b: ContextView<N>,
    instance: ElementId,
    scope: ScopeId,
    creations: spec_fn(int) -> Creation,
    to: int,
)
    requires
        all_hydratable(template, a),
        same_events(a.listeners, b.listeners),
        b == (ContextView { listeners: b.listeners, ..a }),
        0 <= to <= template.dynamic_mapping.all_dynamic().len(),
    ensures
        positions_edits(template, a, instance, scope, creations, 0, to) == positions_edits(
            template,
            b,
            instance,
            scope,
            creations,
            0,
            to,
        ),
    decreases to,
{
    if to > 0 {
        let ids = template.dynamic_mapping.all_dynamic();
        law_hydrating_again_sends_the_same(template, a, b, instance, scope, creations, to - 1);
        lemma_hydration_edits_ignore_mounts(
            template.nodes[ids[to - 1].0 as int],
            a,
            b,
            instance,
            scope,
        );
    }
}

/// It does not show in the renderer whether a template was made at compile time or at run time: two
/// templates that say the same are created and hydrated with the same edits.
pub proof fn law_storage_does_not_show<N>(
    a: &'static StaticTemplate,
    b: OwnedTemplate,
    id: RendererTemplateId,
    context: ContextView<N>,
    instance: ElementId,
    scope: ScopeId,
    from: int,
    before: HydrationView,
)
    requires
        a@ == b@,
    ensures
        Template::Static(a)@.creatable() == Template::Owned(b)@.creatable(),
        template_edits(Template::Static(a)@, id) == template_edits(Template::Owned(b)@, id),
        all_hydratable(Template::Static(a)@, context) == all_hydratable(
            Template::Owned(b)@,
            context,
        ),
        hydrated_from(Template::Static(a)@, context, instance, scope, from, before)
            == hydrated_from(Template::Owned(b)@, context, instance, scope, from, before),
{
}

proof fn lemma_hydration_edits_in_order<N>(
    nodes: Seq<NodeView>,
    ids: Seq<TemplateNodeId>,
    context: ContextView<N>,
    instance: ElementId,
    scope: ScopeId,
)
    ensures
        all_hydration_edits(nodes, ids, context, instance, scope) == ids.map_values(
            |id: TemplateNodeId|
                hydration_edits(nodes[id.0 as int], context, instance, scope),
        ).flatten(),
    decreases ids.len(),
{
    let lists = ids.map_values(
        |id: TemplateNodeId| hydration_edits(nodes[id.0 as int], context, instance, scope),
    );
    lists.lemma_flatten_and_flatten_alt_are_equivalent();
    if ids.len() > 0 {
        let before = ids.drop_last();
        let first = before.map_values(
            |id: TemplateNodeId| hydration_edits(nodes[id.0 as int], context, instance, scope),
        );
        lemma_hydration_edits_in_order(nodes, before, context, instance, scope);
        first.lemma_flatten_and_flatten_alt_are_equivalent();
        assert(lists.drop_last() =~= first);
        assert(lists.last() == hydration_edits(
            nodes[ids.last().0 as int],
            context,
            instance,
            scope,
        ));
    }
}

/// The node refers to the listener.
pub open spec fn refers_to(node: NodeView, listener: int) -> bool {
    node.kind matches NodeKindView::Element(element) && exists|k: int|
        0 <= k < element.listeners.len() && #[trigger] element.listeners[k] == listener
}

proof fn lemma_one_node_mounts(
    node: NodeView,
    listeners: Seq<ListenerView>,
    instance: ElementId,
    listener: int,
)
    requires
        0 <= listener < listeners.len(),
    ensures
        listeners_after(node, listeners, instance).len() == listeners.len(),
        !refers_to(node, listener) ==> listeners_after(node, listeners, instance)[listener]
            == listeners[listener],
        refers_to(node, listener) ==> listeners_after(
            node,
            listeners,
            instance,
        )[listener].mounted_node == Some(
            GlobalNodeId::TemplateId { template_ref_id: instance, template_node_id: node.id },
        ),
{
    if let NodeKindView::Element(element) = node.kind {
        assert(refers_to(node, listener) == is_index_of(element.listeners, listener));
    }
}

/// A listener that no node from the position `from` on refers to stays as the nodes before left it.
proof fn lemma_later_nodes_leave_alone(
    nodes: Seq<NodeView>,
    ids: Seq<TemplateNodeId>,
    listeners: Seq<ListenerView>,
    instance: ElementId,
    listener: int,
    from: int,
)
    requires
        0 <= listener < listeners.len(),
        0 <= from <= ids.len(),
        forall|k: int|
            from <= k < ids.len() ==> !refers_to(nodes[(#[trigger] ids[k]).0 as int], listener),
    ensures
        listeners_after_all(nodes, ids, listeners, instance)[listener] == listeners_after_all(
            nodes,
            ids.take(from),
            listeners,
            instance,
        )[listener],
    decreases ids.len(),
{
    if from < ids.len() {
        let before = ids.drop_last();
        assert forall|k: int| from <= k < before.len() implies !refers_to(
            nodes[(#[trigger] before[k]).0 as int],
            listener,
        ) by {
            assert(before[k] == ids[k]);
        }
        lemma_later_nodes_leave_alone(nodes, before, listeners, instance, listener, from);
        assert(before.take(from) =~= ids.take(from));
        lemma_listeners_after_all_keep_events(nodes, before, listeners, instance);
        assert(!refers_to(nodes[ids[ids.len() - 1].0 as int], listener));
        lemma_one_node_mounts(
            nodes[ids.last().0 as int],
            listeners_after_all(nodes, before, listeners, instance),
            instance,
            listener,
        );
    } else {
        assert(ids.take(from) =~= ids);
    }
}

/// A listener is mounted on the last node that refers to it.
proof fn lemma_last_mount_stays(
    nodes: Seq<NodeView>,
    ids: Seq<TemplateNodeId>,
    listeners: Seq<ListenerView>,
    instance: ElementId,
    listener: int,
    k: int,
)
    requires
        0 <= listener < listeners.len(),
        0 <= k < ids.len(),
        refers_to(nodes[ids[k].0 as int], listener),
        forall|l: int|
            k + 1 <= l < ids.len() ==> !refers_to(nodes[(#[trigger] ids[l]).0 as int], listener),
    ensures
        listeners_after_all(nodes, ids, listeners, instance)[listener].mounted_node == Some(
            GlobalNodeId::TemplateId {
                template_ref_id: instance,
                template_node_id: nodes[ids[k].0 as int].id,
            },
        ),
{
    lemma_later_nodes_leave_alone(nodes, ids, listeners, instance, listener, k + 1);
    assert(ids.take(k + 1).drop_last() =~= ids.take(k));
    assert(ids.take(k + 1).last() == ids[k]);
    lemma_listeners_after_all_keep_events(nodes, ids.take(k), listeners, instance);
    lemma_one_node_mounts(
        nodes[ids[k].0 as int],
        listeners_after_all(nodes, ids.take(k), listeners, instance),
        instance,
        listener,
    );
}

/// One run of hydration goes through the nodes that have a dynamic part, in their order and from the
/// position `from` on, up to the first dynamic node. It sends all that hydrates each of them, one after
/// the other, and where it comes to a dynamic node, it enters the instance and names that node and the
/// node of the context that goes in its place. A listener is mounted on the last of the visited nodes
/// that refer to it, and stays where it is if there is none.
pub proof fn law_what_a_run_does<N>(
    template: TemplateView,
    context: ContextView<N>,
    instance: ElementId,
    scope: ScopeId,
    from: int,
    before: HydrationView,
    after: HydrationView,
    pending: Option<PendingNode<N>>,
    stop: int,
)
    requires
        0 <= from <= template.dynamic_mapping.all_dynamic().len(),
        stop == match pending {
            Some(next) => next.position as int,
            None => template.dynamic_mapping.all_dynamic().len() as int,
        },
        is_hydration_run(template, context, instance, scope, from, before, after, pending),
    ensures
        ({
            let ids = template.dynamic_mapping.all_dynamic();
            let nodes = template.nodes;
            let visited = ids.subrange(from, stop);
            let sent = visited.map_values(
                |id: TemplateNodeId|
                    hydration_edits(nodes[id.0 as int], context, instance, scope),
            ).flatten();
            &&& from <= stop <= ids.len()
            &&& forall|k: int|
                from <= k < stop ==> !(nodes[(#[trigger] ids[k]).0 as int].kind is DynamicNode)
            &&& pending is None ==> {
                &&& after.edits == before.edits + sent
                &&& after.element_stack == before.element_stack
            }
            &&& pending is Some ==> {
                &&& stop < ids.len()
                &&& nodes[ids[stop].0 as int].kind is DynamicNode
                &&& *pending->0.node
                    == context.nodes[nodes[ids[stop].0 as int].kind->DynamicNode_0 as int]
                &&& after.edits == before.edits + sent + seq![
                    EditView::EnterTemplateRef { template_ref: instance },
                ]
                &&& after.element_stack == before.element_stack + seq![
                    GlobalNodeId::TemplateId {
                        template_ref_id: instance,
                        template_node_id: nodes[ids[stop].0 as int].id,
                    },
                ]
            }
            &&& after.listeners.len() == before.listeners.len()
            &&& forall|l: int|
                0 <= l < before.listeners.len() ==> {
                    &&& (#[trigger] after.listeners[l]).event == before.listeners[l].event
                    &&& (forall|k: int|
                        0 <= k < visited.len() ==> !refers_to(
                            nodes[(#[trigger] visited[k]).0 as int],
                            l,
                        )) ==> after.listeners[l] == before.listeners[l]
                    &&& forall|k: int|
                        0 <= k < visited.len() && refers_to(
                            nodes[(#[trigger] visited[k]).0 as int],
                            l,
                        ) && (forall|m: int|
                            k < m < visited.len() ==> !refers_to(
                                nodes[(#[trigger] visited[m]).0 as int],
                                l,
                            )) ==> after.listeners[l].mounted_node == Some(
                            GlobalNodeId::TemplateId {
                                template_ref_id: instance,
                                template_node_id: nodes[visited[k].0 as int].id,
                            },
                        )
                }
        }),
{
    let ids = template.dynamic_mapping.all_dynamic();
    let nodes = template.nodes;
    let visited = ids.subrange(from, stop);
    lemma_next_dynamic_node(nodes, ids, from);
    assert(stop == next_dynamic_node(nodes, ids, from));
    lemma_hydration_edits_in_order(nodes, visited, context, instance, scope);
    let sent = visited.map_values(
        |id: TemplateNodeId| hydration_edits(nodes[id.0 as int], context, instance, scope),
    ).flatten();
    lemma_listeners_after_all_keep_events(nodes, visited, before.listeners, instance);
    assert forall|l: int| 0 <= l < before.listeners.len() implies {
        &&& (#[trigger] after.listeners[l]).event == before.listeners[l].event
        &&& (forall|k: int|
            0 <= k < visited.len() ==> !refers_to(nodes[(#[trigger] visited[k]).0 as int], l))
            ==> after.listeners[l] == before.listeners[l]
        &&& forall|k: int|
            0 <= k < visited.len() && refers_to(nodes[(#[trigger] visited[k]).0 as int], l) && (
            forall|m: int|
                k < m < visited.len() ==> !refers_to(
                    nodes[(#[trigger] visited[m]).0 as int],
                    l,
                )) ==> after.listeners[l].mounted_node == Some(
                GlobalNodeId::TemplateId {
                    template_ref_id: instance,
                    template_node_id: nodes[visited[k].0 as int].id,
                },
            )
    } by {
        if forall|k: int|
            0 <= k < visited.len() ==> !refers_to(nodes[(#[trigger] visited[k]).0 as int], l) {
            lemma_later_nodes_leave_alone(nodes, visited, before.listeners, instance, l, 0);
        }
        assert forall|k: int|
            0 <= k < visited.len() && refers_to(nodes[(#[trigger] visited[k]).0 as int], l) && (
            forall|m: int|
                k < m < visited.len() ==> !refers_to(
                    nodes[(#[trigger] visited[m]).0 as int],
                    l,
                )) implies after.listeners[l].mounted_node == Some(
            GlobalNodeId::TemplateId {
                template_ref_id: instance,
                template_node_id: nodes[visited[k].0 as int].id,
            },
        ) by {
            lemma_last_mount_stays(nodes, visited, before.listeners, instance, l, k);
        }
    }
    if stop < ids.len() {
        assert(after.edits =~= before.edits + sent + seq![
            EditView::EnterTemplateRef { template_ref: instance },
        ]);
        assert(after.element_stack =~= before.element_stack + seq![
            GlobalNodeId::TemplateId {
                template_ref_id: instance,
                template_node_id: nodes[ids[stop].0 as int].id,
            },
        ]);
    }
}

/// What a whole hydration sends is what each visited node gets, one after the other. An element or a
/// text gets what hydrates it. A dynamic node gets that the instance is entered, then what creating its
/// replacement sends, then that it is replaced and that the instance is left.
pub proof fn law_what_a_whole_hydration_sends<N>(
    template: TemplateView,
    context: ContextView<N>,
    instance: ElementId,
    scope: ScopeId,
    creations: spec_fn(int) -> Creation,
    before: HydrationView,
)
    requires
        all_hydratable(template, context),
        same_events(context.listeners, before.listeners),
    ensures
        ({
            let ids = template.dynamic_mapping.all_dynamic();
            hydrated_to_the_end(template, context, instance, scope, creations, 0, before).edits
                == before.edits + Seq::new(
                ids.len(),
                |position: int|
                    {
                        let node = template.nodes[ids[position].0 as int];
                        if node.kind is DynamicNode {
                            seq![EditView::EnterTemplateRef { template_ref: instance }]
                                + creations(position).edits + seq![
                                EditView::ReplaceWith {
                                    id: node.id,
                                    created: creations(position).created as nat % 0x1_0000_0000,
                                },
                                EditView::ExitTemplateRef,
                            ]
                        } else {
                            hydration_edits(node, context, instance, scope)
                        }
                    },
            ).flatten()
        }),
        hydrated_to_the_end(
            template,
            context,
            instance,
            scope,
            creations,
            0,
            before,
        ).element_stack == before.element_stack,
{
    let ids = template.dynamic_mapping.all_dynamic();
    let visits = Seq::new(
        ids.len(),
        |position: int|
            {
                let node = template.nodes[ids[position].0 as int];
                if node.kind is DynamicNode {
                    seq![EditView::EnterTemplateRef { template_ref: instance }] + creations(
                        position,
                    ).edits + seq![
                        EditView::ReplaceWith {
                            id: node.id,
                            created: creations(position).created as nat % 0x1_0000_0000,
                        },
                        EditView::ExitTemplateRef,
                    ]
                } else {
                    hydration_edits(node, context, instance, scope)
                }
            },
    );
    law_whole_hydration(template, context, instance, scope, creations, 0, before);
    lemma_positions_in_order(
        template,
        context,
        instance,
        scope,
        creations,
        visits,
        ids.len() as int,
    );
    assert(visits.take(ids.len() as int) =~= visits);
}

proof fn lemma_positions_in_order<N>(
    template: TemplateView,
    context: ContextView<N>,
    instance: ElementId,
    scope: ScopeId,
    creations: spec_fn(int) -> Creation,
    visits: Seq<Seq<EditView>>,
    to: int,
)
    requires
        visits.len() == template.dynamic_mapping.all_dynamic().len(),
        0 <= to <= visits.len(),
        forall|position: int|
            0 <= position < visits.len() ==> (#[trigger] visits[position]) == {
                let node =
                    template.nodes[template.dynamic_mapping.all_dynamic()[position].0 as int];
                if node.kind is DynamicNode {
                    seq![EditView::EnterTemplateRef { template_ref: instance }] + creations(
                        position,
                    ).edits + seq![
                        EditView::ReplaceWith {
                            id: node.id,
                            created: creations(position).created as nat % 0x1_0000_0000,
                        },
                        EditView::ExitTemplateRef,
                    ]
                } else {
                    hydration_edits(node, context, instance, scope)
                }
            },
    ensures
        positions_edits(template, context, instance, scope, creations, 0, to) == visits.take(
            to,
        ).flatten(),
    decreases to,
{
    visits.take(to).lemma_flatten_and_flatten_alt_are_equivalent();
    if to > 0 {
        lemma_positions_in_order(template, context, instance, scope, creations, visits, to - 1);
        visits.take(to - 1).lemma_flatten_and_flatten_alt_are_equivalent();
        assert(visits.take(to).drop_last() =~= visits.take(to - 1));
        assert(visits.take(to).last() == visits[to - 1]);
        let number: u64 = creations(to - 1).created as u64;
        assert(number as u32 == number % 0x1_0000_0000) by (bit_vector);
        assert(position_edits(template, context, instance, scope, creations, to - 1)
            =~= visits[to - 1]);
    }
}

/// An instance can be hydrated exactly where each node that is visited is in the template and the
/// context has a value for each of its dynamic parts.
pub proof fn law_which_instances_can_be_hydrated<N>(
    template: TemplateView,
    context: ContextView<N>,
)
    ensures
        all_hydratable(template, context) <==> forall|id: TemplateNodeId|
            template.dynamic_mapping.all_dynamic().contains(id) ==> (#[trigger] id.0)
                < template.nodes.len() && hydratable(template.nodes[id.0 as int], context),
{
    let ids = template.dynamic_mapping.all_dynamic();
    if all_hydratable(template, context) {
        assert forall|id: TemplateNodeId| ids.contains(id) implies (#[trigger] id.0)
            < template.nodes.len() && hydratable(template.nodes[id.0 as int], context) by {
            let i = ids.index_of(id);
            assert(ids[i] == id);
        }
    }
    if forall|id: TemplateNodeId|
        ids.contains(id) ==> (#[trigger] id.0) < template.nodes.len() && hydratable(
            template.nodes[id.0 as int],
            context,
        ) {
        assert forall|i: int| 0 <= i < ids.len() implies (#[trigger] ids[i]).0
            < template.nodes.len() && hydratable(template.nodes[ids[i].0 as int], context) by {
            assert(ids.contains(ids[i]));
        }
    }
}

/// To hydrate an instance is a run from the first node that has a dynamic part on, and to resume it
/// after a dynamic node is to replace that node and then a run from the next one on. The rest of the
/// instance and of the difference stays as it is.
pub proof fn law_hydrating_an_instance<'a, N>(template: &Template, position: usize, created: usize)
    ensures
        forall|
            template_ref: &mut VTemplateRef<'a, N>,
            diff: &mut DiffState<'a>,
            res: Option<PendingNode<'a, N>>,
        |
            #[trigger] call_ensures(
                VTemplateRef::<'a, N>::hydrate,
                (template_ref, template, diff),
                res,
            ) && (template@.dynamic_mapping.all_dynamic().len() > 0 ==> template_ref.id is Some)
                && all_hydratable(template@, template_ref.dynamic_context@) ==> {
                &&& final(template_ref).id == template_ref.id
                &&& final(template_ref).template_id == template_ref.template_id
                &&& final(template_ref).dynamic_context@.nodes
                    == template_ref.dynamic_context@.nodes
                &&& final(template_ref).dynamic_context@.text_segments
                    == template_ref.dynamic_context@.text_segments
                &&& final(template_ref).dynamic_context@.attributes
                    == template_ref.dynamic_context@.attributes
                &&& final(diff).scope == diff.scope
                &&& final(diff).scope_bump == diff.scope_bump
                &&& is_hydration_run(
                    template@,
                    template_ref.dynamic_context@,
                    template_ref.id->0,
                    diff.scope,
                    0,
                    HydrationView {
                        edits: diff.mutations@,
                        element_stack: diff.element_stack@,
                        listeners: template_ref.dynamic_context@.listeners,
                    },
                    HydrationView {
                        edits: final(diff).mutations@,
                        element_stack: final(diff).element_stack@,
                        listeners: final(template_ref).dynamic_context@.listeners,
                    },
                    res,
                )
            },
        forall|
            template_ref: &mut VTemplateRef<'a, N>,
            diff: &mut DiffState<'a>,
            res: Option<PendingNode<'a, N>>,
        |
            {
                let ids = template@.dynamic_mapping.all_dynamic();
                &&& #[trigger] call_ensures(
                    VTemplateRef::<'a, N>::resume,
                    (template_ref, template, diff, position, created),
                    res,
                )
                &&& template_ref.id is Some
                &&& all_hydratable(template@, template_ref.dynamic_context@)
                &&& position < ids.len()
                &&& template@.nodes[ids[position as int].0 as int].kind is DynamicNode
            } ==> {
                &&& final(template_ref).id == template_ref.id
                &&& final(template_ref).template_id == template_ref.template_id
                &&& final(template_ref).dynamic_context@.nodes
                    == template_ref.dynamic_context@.nodes
                &&& final(template_ref).dynamic_context@.text_segments
                    == template_ref.dynamic_context@.text_segments
                &&& final(template_ref).dynamic_context@.attributes
                    == template_ref.dynamic_context@.attributes
                &&& final(diff).scope == diff.scope
                &&& final(diff).scope_bump == diff.scope_bump
                &&& is_hydration_run(
                    template@,
                    template_ref.dynamic_context@,
                    template_ref.id->0,
                    diff.scope,
                    position + 1,
                    replaced(
                        template@.nodes[template@.dynamic_mapping.all_dynamic()[position as int].0 as int],
                        created,
                        HydrationView {
                            edits: diff.mutations@,
                            element_stack: diff.element_stack@,
                            listeners: template_ref.dynamic_context@.listeners,
                        },
                    ),
                    HydrationView {
                        edits: final(diff).mutations@,
                        element_stack: final(diff).element_stack@,
                        listeners: final(template_ref).dynamic_context@.listeners,
                    },
                    res,
                )
            },
{
}

/// An instance says that it can be hydrated exactly where no node has a dynamic part, or where it is
/// mounted and each node that has one is in the template and finds its values in the context.
pub proof fn law_is_hydratable_tells_of_instances<'a, N>(
    template_ref: &VTemplateRef<'a, N>,
    template: &Template,
    res: bool,
)
    requires
        call_ensures(VTemplateRef::<'a, N>::is_hydratable, (template_ref, template), res),
    ensures
        res <==> {
            let ids = template@.dynamic_mapping.all_dynamic();
            ||| ids.len() == 0
            ||| template_ref.id is Some && forall|i: int|
                0 <= i < ids.len() ==> (#[trigger] ids[i]).0 < template@.nodes.len() && hydratable(
                    template@.nodes[ids[i].0 as int],
                    template_ref.dynamic_context@,
                )
        },
{
}

/// An instance can be hydrated wherever it is mounted and the context has a value for each dynamic part.
/// One without dynamic parts need not be mounted.
pub proof fn law_when_to_hydrate<'a, N>(template: &Template, position: usize, created: usize)
    ensures
        forall|template_ref: &mut VTemplateRef<'a, N>, diff: &mut DiffState<'a>|
            (template@.dynamic_mapping.all_dynamic().len() == 0 || template_ref.id is Some
                && all_hydratable(template@, template_ref.dynamic_context@)) ==> #[trigger]
            call_requires(VTemplateRef::<'a, N>::hydrate, (template_ref, template, diff)),
        forall|template_ref: &mut VTemplateRef<'a, N>, diff: &mut DiffState<'a>|
            {
                let ids = template@.dynamic_mapping.all_dynamic();
                &&& template_ref.id is Some
                &&& all_hydratable(template@, template_ref.dynamic_context@)
                &&& position < ids.len()
                &&& template@.nodes[ids[position as int].0 as int].kind is DynamicNode
            } ==> #[trigger] call_requires(
                VTemplateRef::<'a, N>::resume,
                (template_ref, template, diff, position, created),
            ),
{
}

} // verus!
