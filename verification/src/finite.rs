//! Finding out whether a template is made of finite trees, as creating it requires.
use vstd::prelude::*;

use crate::create::{creatable, creatable_within, id_creatable, lemma_height_of_child};
use crate::ids::TemplateNodeId;
use crate::node::{
    decidable, decidable_within, node_views, NodeKindView, NodeView, TemplateAttribute,
    TemplateNode, TemplateNodeType, TextTemplateSegment,
};
use crate::storage::{AsSlice, AsText};
use crate::template::Template;
use crate::value::TemplateValue;

verus! {

/// How many flags are not set.
spec fn unset(flags: Seq<bool>) -> nat
    decreases flags.len(),
{
    if flags.len() == 0 {
        0
    } else {
        unset(flags.drop_last()) + if flags.last() {
            0nat
        } else {
            1nat
        }
    }
}

proof fn lemma_set_one(flags: Seq<bool>, i: int)
    requires
        0 <= i < flags.len(),
        !flags[i],
    ensures
        unset(flags.update(i, true)) == unset(flags) - 1,
    decreases flags.len(),
{
    let after = flags.update(i, true);
    if i == flags.len() - 1 {
        assert(after.drop_last() =~= flags.drop_last());
    } else {
        assert(after.drop_last() =~= flags.drop_last().update(i, true));
        lemma_set_one(flags.drop_last(), i);
    }
}

proof fn lemma_deeper(nodes: Seq<NodeView>, node: NodeView, depth: nat, deeper: nat)
    requires
        creatable_within(nodes, node, depth),
        depth <= deeper,
    ensures
        creatable_within(nodes, node, deeper),
    decreases depth,
{
    assert forall|i: int|
        #![trigger node.kind.children()[i]]
        0 <= i < node.kind.children().len() implies {
        &&& node.kind.children()[i].0 < nodes.len()
        &&& deeper > 0
        &&& creatable_within(
            nodes,
            nodes[node.kind.children()[i].0 as int],
            (deeper - 1) as nat,
        )
    } by {
        lemma_deeper(
            nodes,
            nodes[node.kind.children()[i].0 as int],
            (depth - 1) as nat,
            (deeper - 1) as nat,
        );
    }
}

/// Finitely many finite trees have a common bound on their heights.
proof fn lemma_common_depth(nodes: Seq<NodeView>, ids: Seq<TemplateNodeId>) -> (depth: nat)
    requires
        forall|i: int| 0 <= i < ids.len() ==> id_creatable(nodes, #[trigger] ids[i]),
    ensures
        forall|i: int|
            0 <= i < ids.len() ==> creatable_within(
                nodes,
                nodes[(#[trigger] ids[i]).0 as int],
                depth,
            ),
    decreases ids.len(),
{
    if ids.len() == 0 {
        0
    } else {
        let before = ids.drop_last();
        assert(forall|i: int| 0 <= i < before.len() ==> #[trigger] before[i] == ids[i]);
        let a = lemma_common_depth(nodes, before);
        assert(id_creatable(nodes, ids[ids.len() - 1]));
        let last = nodes[ids.last().0 as int];
        let b = choose|depth: nat| creatable_within(nodes, last, depth);
        let depth = a + b;
        assert forall|i: int| 0 <= i < ids.len() implies creatable_within(
            nodes,
            nodes[(#[trigger] ids[i]).0 as int],
            depth,
        ) by {
            if i < before.len() {
                assert(before[i] == ids[i]);
                lemma_deeper(nodes, nodes[ids[i].0 as int], a, depth);
            } else {
                lemma_deeper(nodes, last, b, depth);
            }
        }
        depth
    }
}

/// A node above finite trees is the root of a finite tree.
proof fn lemma_creatable_from_children(nodes: Seq<NodeView>, node: NodeView)
    requires
        forall|i: int|
            0 <= i < node.kind.children().len() ==> id_creatable(
                nodes,
                #[trigger] node.kind.children()[i],
            ),
    ensures
        creatable(nodes, node),
{
    let depth = lemma_common_depth(nodes, node.kind.children());
    assert(creatable_within(nodes, node, depth + 1));
}

/// Where no further flag can be set, all finite trees are found.
proof fn lemma_all_found(nodes: Seq<NodeView>, found: Seq<bool>, k: int, depth: nat)
    requires
        found.len() == nodes.len(),
        0 <= k < nodes.len(),
        forall|i: int|
            0 <= i < nodes.len() && !#[trigger] found[i] ==> !children_found(nodes[i], found),
        creatable_within(nodes, nodes[k], depth),
    ensures
        found[k],
    decreases depth,
{
    if !found[k] {
        assert(!children_found(nodes[k], found));
        let children = nodes[k].kind.children();
        let i = choose|i: int|
            0 <= i < children.len() && !((#[trigger] children[i]).0 < found.len()
                && found[children[i].0 as int]);
        assert(children[i].0 < nodes.len());
        lemma_all_found(nodes, found, children[i].0 as int, (depth - 1) as nat);
    }
}

/// All children of the node are in the template and known to be roots of finite trees.
pub open spec fn children_found(node: NodeView, found: Seq<bool>) -> bool {
    forall|i: int|
        0 <= i < node.kind.children().len() ==> (#[trigger] node.kind.children()[i]).0
            < found.len() && found[node.kind.children()[i].0 as int]
}

/// Whether all of a node's children are known to be roots of finite trees.
fn are_children_found<Attributes, V, Children, Listeners, TextSegments, Text>(
    node: &TemplateNode<Attributes, V, Children, Listeners, TextSegments, Text>,
    found: &Vec<bool>,
) -> (res: bool) where
    Attributes: AsSlice<TemplateAttribute<V>>,
    V: TemplateValue,
    Children: AsSlice<TemplateNodeId>,
    Listeners: AsSlice<usize>,
    TextSegments: AsSlice<TextTemplateSegment<Text>>,
    Text: AsText,

    ensures
        res == children_found(node@, found@),
{
    match &node.node_type {
        TemplateNodeType::Element(element) => {
            let children: &[TemplateNodeId] = element.children.as_slice();
            let mut i: usize = 0;
            while i < children.len()
                invariant
                    i <= children.len(),
                    children@ == node@.kind.children(),
                    forall|j: int|
                        0 <= j < i ==> (#[trigger] children@[j]).0 < found@.len()
                            && found@[children@[j].0 as int],
                decreases children.len() - i,
            {
                let child: usize = children[i].0;
                assert(node@.kind.children()[i as int].0 == child);
                if child >= found.len() || !found[child] {
                    return false;
                }
                i += 1;
            }
            true
        },
        _ => true,
    }
}

/// For each node, whether it is the root of a finite tree. Starting from the leaves, nodes are found
/// whose children have all been found, until a round finds no more.
pub fn creatable_nodes<Attributes, V, Children, Listeners, TextSegments, Text>(
    nodes: &[TemplateNode<Attributes, V, Children, Listeners, TextSegments, Text>],
) -> (res: Vec<bool>) where
    Attributes: AsSlice<TemplateAttribute<V>>,
    V: TemplateValue,
    Children: AsSlice<TemplateNodeId>,
    Listeners: AsSlice<usize>,
    TextSegments: AsSlice<TextTemplateSegment<Text>>,
    Text: AsText,

    ensures
        res@.len() == nodes@.len(),
        forall|i: int|
            0 <= i < nodes@.len() ==> #[trigger] res@[i] == creatable(
                node_views(nodes@),
                node_views(nodes@)[i],
            ),
{
    let ghost views = node_views(nodes@);
    let mut found: Vec<bool> = Vec::new();
    while found.len() < nodes.len()
        invariant
            found@.len() <= nodes@.len(),
            forall|i: int| 0 <= i < found@.len() ==> !#[trigger] found@[i],
        decreases nodes.len() - found.len(),
    {
        found.push(false);
    }
    let mut changed = true;
    while changed
        invariant
            views == node_views(nodes@),
            found@.len() == nodes@.len(),
            forall|i: int|
                0 <= i < found@.len() && #[trigger] found@[i] ==> creatable(views, views[i]),
            !changed ==> forall|i: int|
                0 <= i < found@.len() && !#[trigger] found@[i] ==> !children_found(
                    views[i],
                    found@,
                ),
        decreases unset(found@), if changed {
                1int
            } else {
                0int
            },
    {
        changed = false;
        let ghost before = found@;
        let mut k: usize = 0;
        while k < nodes.len()
            invariant
                k <= nodes.len(),
                views == node_views(nodes@),
                found@.len() == nodes@.len(),
                forall|i: int|
                    0 <= i < found@.len() && #[trigger] found@[i] ==> creatable(views, views[i]),
                changed ==> unset(found@) < unset(before),
                !changed ==> found@ == before,
                !changed ==> forall|i: int|
                    0 <= i < k && !#[trigger] found@[i] ==> !children_found(views[i], found@),
            decreases nodes.len() - k,
        {
            if !found[k] {
                let node = &nodes[k];
                assert(node@ == views[k as int]);
                if are_children_found(node, &found) {
                    proof {
                        let children = node@.kind.children();
                        assert forall|i: int| 0 <= i < children.len() implies id_creatable(
                            views,
                            #[trigger] children[i],
                        ) by {
                            assert(found@[children[i].0 as int]);
                        }
                        lemma_creatable_from_children(views, node@);
                        lemma_set_one(found@, k as int);
                    }
                    found.set(k, true);
                    changed = true;
                }
            }
            k += 1;
        }
    }
    assert forall|i: int| 0 <= i < nodes@.len() implies #[trigger] found@[i] == creatable(
        views,
        views[i],
    ) by {
        if creatable(views, views[i]) {
            lemma_all_found(
                views,
                found@,
                i,
                choose|depth: nat| creatable_within(views, views[i], depth),
            );
        }
    }
    found
}

impl Template {
    /// Whether the template can be created.
    pub fn is_creatable(&self) -> (res: bool)
        ensures
            res == self@.creatable(),
    {
        let found = match self {
            Template::Static(template) => creatable_nodes(template.nodes),
            Template::Owned(template) => creatable_nodes(template.nodes.as_slice()),
        };
        if found.len() == 0 {
            return true;
        }
        let roots: &[TemplateNodeId] = match self {
            Template::Static(template) => template.root_nodes,
            Template::Owned(template) => template.root_nodes.as_slice(),
        };
        if roots.len() > 0x7fff_ffff {
            return false;
        }
        let mut i: usize = 0;
        while i < roots.len()
            invariant
                i <= roots.len(),
                roots@ == self@.root_nodes,
                found@.len() == self@.nodes.len(),
                found@.len() > 0,
                forall|j: int|
                    0 <= j < found@.len() ==> #[trigger] found@[j] == creatable(
                        self@.nodes,
                        self@.nodes[j],
                    ),
                forall|j: int| 0 <= j < i ==> id_creatable(self@.nodes, #[trigger] roots@[j]),
            decreases roots.len() - i,
        {
            let root: usize = roots[i].0;
            if root >= found.len() || !found[root] {
                assert(!id_creatable(self@.nodes, self@.root_nodes[i as int]));
                return false;
            }
            i += 1;
        }
        true
    }
}

/// The kinds of a list of nodes.
pub open spec fn kinds_of(nodes: Seq<NodeView>) -> Seq<NodeKindView> {
    nodes.map_values(|node: NodeView| node.kind)
}

proof fn lemma_finite_trees_are_decidable(nodes: Seq<NodeView>, node: NodeView, depth: nat)
    requires
        creatable_within(nodes, node, depth),
    ensures
        decidable_within(kinds_of(nodes), node.kind, depth),
    decreases depth,
{
    assert forall|i: int|
        #![trigger node.kind.children()[i]]
        0 <= i < node.kind.children().len() implies {
        &&& node.kind.children()[i].0 < kinds_of(nodes).len()
        &&& depth > 0
        &&& decidable_within(
            kinds_of(nodes),
            kinds_of(nodes)[node.kind.children()[i].0 as int],
            (depth - 1) as nat,
        )
    } by {
        lemma_finite_trees_are_decidable(
            nodes,
            nodes[node.kind.children()[i].0 as int],
            (depth - 1) as nat,
        );
    }
}

/// Of any node that can be created it can be found out whether it is fully static.
pub proof fn law_creatable_nodes_are_decidable(nodes: Seq<NodeView>, node: NodeView)
    requires
        creatable(nodes, node),
    ensures
        decidable(kinds_of(nodes), node.kind),
{
    let depth = choose|depth: nat| creatable_within(nodes, node, depth);
    lemma_finite_trees_are_decidable(nodes, node, depth);
}

/// A node is the root of a finite tree exactly where each of its children is in the template and the
/// root of a finite tree. Texts and dynamic nodes always are.
pub proof fn law_which_nodes_can_be_created(nodes: Seq<NodeView>, node: NodeView)
    ensures
        node.kind matches NodeKindView::Element(element) ==> (creatable(nodes, node)
            <==> forall|i: int|
            0 <= i < element.children.len() ==> {
                &&& (#[trigger] element.children[i]).0 < nodes.len()
                &&& creatable(nodes, nodes[element.children[i].0 as int])
            }),
        !(node.kind is Element) ==> creatable(nodes, node),
{
    let children = node.kind.children();
    if creatable(nodes, node) {
        assert forall|i: int| 0 <= i < children.len() implies {
            &&& (#[trigger] children[i]).0 < nodes.len()
            &&& creatable(nodes, nodes[children[i].0 as int])
        } by {
            lemma_height_of_child(nodes, node, i);
        }
    }
    if forall|i: int|
        0 <= i < children.len() ==> {
            &&& (#[trigger] children[i]).0 < nodes.len()
            &&& creatable(nodes, nodes[children[i].0 as int])
        } {
        assert forall|i: int| 0 <= i < children.len() implies id_creatable(
            nodes,
            #[trigger] children[i],
        ) by {}
        lemma_creatable_from_children(nodes, node);
    }
}

/// A template says that it can be created exactly where it can, and so does each of its nodes.
pub proof fn law_is_creatable_tells<Attributes, V, Children, Listeners, TextSegments, Text>(
    template: &Template,
    res: bool,
    nodes: &[TemplateNode<Attributes, V, Children, Listeners, TextSegments, Text>],
    found: Vec<bool>,
) where
    Attributes: AsSlice<TemplateAttribute<V>>,
    V: TemplateValue,
    Children: AsSlice<TemplateNodeId>,
    Listeners: AsSlice<usize>,
    TextSegments: AsSlice<TextTemplateSegment<Text>>,
    Text: AsText,

    ensures
        call_ensures(Template::is_creatable, (template,), res) ==> res == template@.creatable(),
        call_ensures(
            creatable_nodes::<Attributes, V, Children, Listeners, TextSegments, Text>,
            (nodes,),
            found,
        ) ==> {
            &&& found@.len() == nodes@.len()
            &&& forall|i: int|
                0 <= i < nodes@.len() ==> (#[trigger] found@[i]) == creatable(
                    node_views(nodes@),
                    nodes@[i]@,
                )
        },
{
}

} // verus!
