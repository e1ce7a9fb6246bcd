//! Which nodes of a template depend on which value of the dynamic context.
use std::marker::PhantomData;
use vstd::prelude::*;

use crate::ids::TemplateNodeId;
use crate::storage::AsSlice;

verus! {

/// For each value of the dynamic context, the parts of the template that depend on it. With it
/// hydration finds the dynamic parts without walking through the template.
#[derive(Debug, PartialEq, Eq)]
pub struct DynamicNodeMapping<
    Nodes,
    TextOuter,
    TextInner,
    AttributesOuter,
    AttributesInner,
    Volatile,
    Listeners,
> where
    Nodes: AsSlice<Option<TemplateNodeId>>,
    TextOuter: AsSlice<TextInner>,
    TextInner: AsSlice<TemplateNodeId>,
    AttributesOuter: AsSlice<AttributesInner>,
    AttributesInner: AsSlice<(TemplateNodeId, usize)>,
    Volatile: AsSlice<(TemplateNodeId, usize)>,
    Listeners: AsSlice<TemplateNodeId>,
 {
    /// For each dynamic node the node that it replaces, if there is one.
    pub nodes: Nodes,
    /// For each dynamic text the nodes that show it.
    pub text: TextOuter,
    /// For each dynamic attribute the nodes that have it, with the position among their attributes.
    pub attributes: AttributesOuter,
    /// The attributes that must be set every time.
    pub volatile_attributes: Volatile,
    /// The nodes that have listeners.
    pub nodes_with_listeners: Listeners,
    pub text_inner: PhantomData<TextInner>,
    pub attributes_inner: PhantomData<AttributesInner>,
}

/// The mathematical view of a [`DynamicNodeMapping`].
pub struct MappingView {
    pub nodes: Seq<Option<TemplateNodeId>>,
    pub text: Seq<Seq<TemplateNodeId>>,
    pub attributes: Seq<Seq<(TemplateNodeId, usize)>>,
    pub volatile_attributes: Seq<(TemplateNodeId, usize)>,
    pub nodes_with_listeners: Seq<TemplateNodeId>,
}

/// The contents of each container of a list.
pub open spec fn inner_elements<T, Inner: AsSlice<T>>(outer: Seq<Inner>) -> Seq<Seq<T>> {
    outer.map_values(|inner: Inner| inner.elements())
}

impl<Nodes, TextOuter, TextInner, AttributesOuter, AttributesInner, Volatile, Listeners> View for DynamicNodeMapping<
    Nodes,
    TextOuter,
    TextInner,
    AttributesOuter,
    AttributesInner,
    Volatile,
    Listeners,
> where
    Nodes: AsSlice<Option<TemplateNodeId>>,
    TextOuter: AsSlice<TextInner>,
    TextInner: AsSlice<TemplateNodeId>,
    AttributesOuter: AsSlice<AttributesInner>,
    AttributesInner: AsSlice<(TemplateNodeId, usize)>,
    Volatile: AsSlice<(TemplateNodeId, usize)>,
    Listeners: AsSlice<TemplateNodeId>,
 {
    type V = MappingView;

    open spec fn view(&self) -> MappingView {
        MappingView {
            nodes: self.nodes.elements(),
            text: inner_elements(self.text.elements()),
            attributes: inner_elements(self.attributes.elements()),
            volatile_attributes: self.volatile_attributes.elements(),
            nodes_with_listeners: self.nodes_with_listeners.elements(),
        }
    }
}

/// The ids that are there, in order.
pub open spec fn present(ids: Seq<Option<TemplateNodeId>>) -> Seq<TemplateNodeId>
    decreases ids.len(),
{
    if ids.len() == 0 {
        Seq::empty()
    } else {
        match ids.last() {
            Some(id) => present(ids.drop_last()).push(id),
            None => present(ids.drop_last()),
        }
    }
}

/// The ids of a list of attributes.
pub open spec fn attribute_ids(attributes: Seq<(TemplateNodeId, usize)>) -> Seq<TemplateNodeId> {
    attributes.map_values(|attribute: (TemplateNodeId, usize)| attribute.0)
}

impl MappingView {
    /// All nodes that have a dynamic part: those to be replaced, those with dynamic text, those with
    /// dynamic attributes and those with listeners. A node comes once for each of its dynamic parts.
    pub open spec fn all_dynamic(self) -> Seq<TemplateNodeId> {
        present(self.nodes) + self.text.flatten() + attribute_ids(self.attributes.flatten())
            + self.nodes_with_listeners
    }
}

impl MappingView {
    /// The node is one that some value of the dynamic context, or some listener, belongs to.
    pub open spec fn has_dynamic_part(self, id: TemplateNodeId) -> bool {
        ||| exists|i: int| 0 <= i < self.nodes.len() && #[trigger] self.nodes[i] == Some(id)
        ||| exists|i: int|
            0 <= i < self.text.len() && (#[trigger] self.text[i]).contains(id)
        ||| exists|i: int|
            0 <= i < self.attributes.len() && attribute_ids(#[trigger] self.attributes[i]).contains(
                id,
            )
        ||| self.nodes_with_listeners.contains(id)
    }
}

/// Appends a list of ids.
fn push_ids(out: &mut Vec<TemplateNodeId>, ids: &[TemplateNodeId])
    ensures
        final(out)@ == old(out)@ + ids@,
{
    let mut i: usize = 0;
    while i < ids.len()
        invariant
            i <= ids.len(),
            out@ == old(out)@ + ids@.take(i as int),
        decreases ids.len() - i,
    {
        out.push(ids[i]);
        i += 1;
        assert(out@ =~= old(out)@ + ids@.take(i as int));
    }
    assert(ids@.take(i as int) =~= ids@);
}

/// Appends the ids of a list of attributes.
fn push_attribute_ids(out: &mut Vec<TemplateNodeId>, attributes: &[(TemplateNodeId, usize)])
    ensures
        final(out)@ == old(out)@ + attribute_ids(attributes@),
{
    let mut i: usize = 0;
    while i < attributes.len()
        invariant
            i <= attributes.len(),
            out@ == old(out)@ + attribute_ids(attributes@.take(i as int)),
        decreases attributes.len() - i,
    {
        out.push(attributes[i].0);
        i += 1;
        assert(out@ =~= old(out)@ + attribute_ids(attributes@.take(i as int)));
    }
    assert(attributes@.take(i as int) =~= attributes@);
}

impl<Nodes, TextOuter, TextInner, AttributesOuter, AttributesInner, Volatile, Listeners> DynamicNodeMapping<
    Nodes,
    TextOuter,
    TextInner,
    AttributesOuter,
    AttributesInner,
    Volatile,
    Listeners,
> where
    Nodes: AsSlice<Option<TemplateNodeId>>,
    TextOuter: AsSlice<TextInner>,
    TextInner: AsSlice<TemplateNodeId>,
    AttributesOuter: AsSlice<AttributesInner>,
    AttributesInner: AsSlice<(TemplateNodeId, usize)>,
    Volatile: AsSlice<(TemplateNodeId, usize)>,
    Listeners: AsSlice<TemplateNodeId>,
 {
    /// Create a new mapping.
    pub fn new(
        nodes: Nodes,
        text: TextOuter,
        attributes: AttributesOuter,
        volatile_attributes: Volatile,
        nodes_with_listeners: Listeners,
    ) -> (res: Self)
        ensures
            res.nodes == nodes,
            res.text == text,
            res.attributes == attributes,
            res.volatile_attributes == volatile_attributes,
            res.nodes_with_listeners == nodes_with_listeners,
    {
        DynamicNodeMapping {
            nodes,
            text,
            attributes,
            volatile_attributes,
            nodes_with_listeners,
            text_inner: PhantomData,
            attributes_inner: PhantomData,
        }
    }

    /// All nodes that have a dynamic part.
    pub fn all_dynamic(&self) -> (res: Vec<TemplateNodeId>)
        ensures
            res@ == self@.all_dynamic(),
    {
        let mut out: Vec<TemplateNodeId> = Vec::new();
        let nodes: &[Option<TemplateNodeId>] = self.nodes.as_slice();
        let mut i: usize = 0;
        while i < nodes.len()
            invariant
                i <= nodes.len(),
                out@ == present(nodes@.take(i as int)),
            decreases nodes.len() - i,
        {
            assert(nodes@.take(i + 1).drop_last() =~= nodes@.take(i as int));
            match nodes[i] {
                Some(id) => out.push(id),
                None => {},
            }
            i += 1;
        }
        assert(nodes@.take(i as int) =~= self@.nodes);

        let text: &[TextInner] = self.text.as_slice();
        let ghost before = out@;
        let ghost lists = self@.text;
        let mut j: usize = 0;
        assert(out@ =~= before + lists.take(0).flatten_alt());
        while j < text.len()
            invariant
                j <= text.len(),
                text@.len() == lists.len(),
                forall|k: int| 0 <= k < lists.len() ==> #[trigger] lists[k] == text@[k].elements(),
                out@ == before + lists.take(j as int).flatten_alt(),
            decreases text.len() - j,
        {
            assert(lists.take(j + 1).drop_last() =~= lists.take(j as int));
            push_ids(&mut out, text[j].as_slice());
            j += 1;
            assert(out@ =~= before + lists.take(j as int).flatten_alt());
        }
        assert(lists.take(j as int) =~= lists);
        proof {
            lists.lemma_flatten_and_flatten_alt_are_equivalent();
        }

        let attributes: &[AttributesInner] = self.attributes.as_slice();
        let ghost before = out@;
        let ghost lists = self@.attributes;
        let mut k: usize = 0;
        assert(out@ =~= before + attribute_ids(lists.take(0).flatten_alt()));
        while k < attributes.len()
            invariant
                k <= attributes.len(),
                attributes@.len() == lists.len(),
                forall|l: int|
                    0 <= l < lists.len() ==> #[trigger] lists[l] == attributes@[l].elements(),
                out@ == before + attribute_ids(lists.take(k as int).flatten_alt()),
            decreases attributes.len() - k,
        {
            assert(lists.take(k + 1).drop_last() =~= lists.take(k as int));
            push_attribute_ids(&mut out, attributes[k].as_slice());
            k += 1;
            assert(out@ =~= before + attribute_ids(lists.take(k as int).flatten_alt()));
        }
        assert(lists.take(k as int) =~= lists);
        proof {
            lists.lemma_flatten_and_flatten_alt_are_equivalent();
        }

        push_ids(&mut out, self.nodes_with_listeners.as_slice());
        out
    }
}

impl<Nodes, TextOuter, TextInner, AttributesOuter, AttributesInner, Volatile, Listeners> Clone for DynamicNodeMapping<
    Nodes,
    TextOuter,
    TextInner,
    AttributesOuter,
    AttributesInner,
    Volatile,
    Listeners,
> where
    Nodes: AsSlice<Option<TemplateNodeId>> + Clone,
    TextOuter: AsSlice<TextInner> + Clone,
    TextInner: AsSlice<TemplateNodeId>,
    AttributesOuter: AsSlice<AttributesInner> + Clone,
    AttributesInner: AsSlice<(TemplateNodeId, usize)>,
    Volatile: AsSlice<(TemplateNodeId, usize)> + Clone,
    Listeners: AsSlice<TemplateNodeId> + Clone,
 {
    fn clone(&self) -> (res: Self)
        ensures
            cloned(self.nodes, res.nodes),
            cloned(self.text, res.text),
            cloned(self.attributes, res.attributes),
            cloned(self.volatile_attributes, res.volatile_attributes),
            cloned(self.nodes_with_listeners, res.nodes_with_listeners),
    {
        DynamicNodeMapping::new(
            self.nodes.clone(),
            self.text.clone(),
            self.attributes.clone(),
            self.volatile_attributes.clone(),
            self.nodes_with_listeners.clone(),
        )
    }
}

/// A mapping that is made of `'static` references.
pub type StaticDynamicNodeMapping = DynamicNodeMapping<
    &'static [Option<TemplateNodeId>],
    &'static [&'static [TemplateNodeId]],
    &'static [TemplateNodeId],
    &'static [&'static [(TemplateNodeId, usize)]],
    &'static [(TemplateNodeId, usize)],
    &'static [(TemplateNodeId, usize)],
    &'static [TemplateNodeId],
>;

/// A heap allocated mapping.
pub type OwnedDynamicNodeMapping = DynamicNodeMapping<
    Vec<Option<TemplateNodeId>>,
    Vec<Vec<TemplateNodeId>>,
    Vec<TemplateNodeId>,
    Vec<Vec<(TemplateNodeId, usize)>>,
    Vec<(TemplateNodeId, usize)>,
    Vec<(TemplateNodeId, usize)>,
    Vec<TemplateNodeId>,
>;

proof fn lemma_present_contains(ids: Seq<Option<TemplateNodeId>>, id: TemplateNodeId)
    ensures
        present(ids).contains(id) <==> exists|i: int|
            0 <= i < ids.len() && #[trigger] ids[i] == Some(id),
    decreases ids.len(),
{
    if ids.len() > 0 {
        let rest = ids.drop_last();
        lemma_present_contains(rest, id);
        if exists|i: int| 0 <= i < ids.len() && #[trigger] ids[i] == Some(id) {
            let i = choose|i: int| 0 <= i < ids.len() && #[trigger] ids[i] == Some(id);
            if i < rest.len() {
                assert(rest[i] == Some(id));
                let k = choose|k: int| 0 <= k < present(rest).len() && present(rest)[k] == id;
                assert(present(ids)[k] == id);
            } else {
                assert(present(ids).last() == id);
            }
        }
        if present(ids).contains(id) {
            let k = choose|k: int| 0 <= k < present(ids).len() && present(ids)[k] == id;
            if k < present(rest).len() {
                assert(present(rest)[k] == id);
                let i = choose|i: int| 0 <= i < rest.len() && #[trigger] rest[i] == Some(id);
                assert(ids[i] == Some(id));
            } else {
                assert(ids[ids.len() - 1] == Some(id));
            }
        }
    }
}

proof fn lemma_flatten_contains<T>(lists: Seq<Seq<T>>, x: T)
    ensures
        lists.flatten().contains(x) <==> exists|i: int|
            0 <= i < lists.len() && (#[trigger] lists[i]).contains(x),
    decreases lists.len(),
{
    if lists.len() > 0 {
        let rest = lists.drop_first();
        lemma_flatten_contains(rest, x);
        let flat = lists.flatten();
        assert(flat == lists.first() + rest.flatten());
        if exists|i: int| 0 <= i < lists.len() && (#[trigger] lists[i]).contains(x) {
            let i = choose|i: int| 0 <= i < lists.len() && (#[trigger] lists[i]).contains(x);
            if i == 0 {
                let k = lists[0].index_of(x);
                assert(flat[k] == x);
            } else {
                assert(rest[i - 1].contains(x));
                let k = rest.flatten().index_of(x);
                assert(flat[lists.first().len() + k] == x);
            }
        }
        if flat.contains(x) {
            let k = flat.index_of(x);
            if k < lists.first().len() {
                assert(lists[0][k] == x);
                assert(lists[0].contains(x));
            } else {
                assert(rest.flatten()[k - lists.first().len()] == x);
                let i = choose|i: int| 0 <= i < rest.len() && (#[trigger] rest[i]).contains(x);
                assert(lists[i + 1].contains(x));
            }
        }
    }
}

proof fn lemma_attribute_ids_of_flatten(lists: Seq<Seq<(TemplateNodeId, usize)>>)
    ensures
        attribute_ids(lists.flatten()) == lists.map_values(
            |list: Seq<(TemplateNodeId, usize)>| attribute_ids(list),
        ).flatten(),
    decreases lists.len(),
{
    let ids = lists.map_values(|list: Seq<(TemplateNodeId, usize)>| attribute_ids(list));
    if lists.len() > 0 {
        lemma_attribute_ids_of_flatten(lists.drop_first());
        assert(ids.drop_first() =~= lists.drop_first().map_values(
            |list: Seq<(TemplateNodeId, usize)>| attribute_ids(list),
        ));
        assert(attribute_ids(lists.first() + lists.drop_first().flatten()) =~= attribute_ids(
            lists.first(),
        ) + attribute_ids(lists.drop_first().flatten()));
    } else {
        assert(attribute_ids(lists.flatten()) =~= ids.flatten());
    }
}

proof fn lemma_concat_contains<T>(a: Seq<T>, b: Seq<T>, x: T)
    ensures
        (a + b).contains(x) <==> a.contains(x) || b.contains(x),
{
    if a.contains(x) {
        assert((a + b)[a.index_of(x)] == x);
    }
    if b.contains(x) {
        assert((a + b)[a.len() + b.index_of(x)] == x);
    }
    if (a + b).contains(x) {
        let k = (a + b).index_of(x);
        if k < a.len() {
            assert(a[k] == x);
        } else {
            assert(b[k - a.len()] == x);
        }
    }
}

/// The nodes that hydration visits are exactly those that some value of the dynamic context, or some
/// listener, belongs to: none is missed, and none is visited without need.
pub proof fn law_all_dynamic_is_complete(mapping: MappingView, id: TemplateNodeId)
    ensures
        mapping.all_dynamic().contains(id) <==> mapping.has_dynamic_part(id),
{
    let nodes = present(mapping.nodes);
    let text = mapping.text.flatten();
    let attributes = attribute_ids(mapping.attributes.flatten());
    let lists = mapping.attributes.map_values(
        |list: Seq<(TemplateNodeId, usize)>| attribute_ids(list),
    );
    lemma_present_contains(mapping.nodes, id);
    lemma_flatten_contains(mapping.text, id);
    lemma_attribute_ids_of_flatten(mapping.attributes);
    lemma_flatten_contains(lists, id);
    assert(lists.len() == mapping.attributes.len());
    assert(forall|i: int|
        0 <= i < lists.len() ==> #[trigger] lists[i] == attribute_ids(mapping.attributes[i]));
    if exists|i: int|
        0 <= i < mapping.attributes.len() && attribute_ids(
            #[trigger] mapping.attributes[i],
        ).contains(id) {
        let i = choose|i: int|
            0 <= i < mapping.attributes.len() && attribute_ids(
                #[trigger] mapping.attributes[i],
            ).contains(id);
        assert(lists[i].contains(id));
    }
    if exists|i: int| 0 <= i < lists.len() && (#[trigger] lists[i]).contains(id) {
        let i = choose|i: int| 0 <= i < lists.len() && (#[trigger] lists[i]).contains(id);
        assert(attribute_ids(mapping.attributes[i]).contains(id));
    }
    lemma_concat_contains(nodes, text, id);
    lemma_concat_contains(nodes + text, attributes, id);
    lemma_concat_contains(nodes + text + attributes, mapping.nodes_with_listeners, id);
}

proof fn lemma_present_in_order(
    ids: Seq<Option<TemplateNodeId>>,
    is_there: spec_fn(Option<TemplateNodeId>) -> bool,
)
    requires
        forall|id: Option<TemplateNodeId>| #[trigger] is_there(id) == (id is Some),
    ensures
        present(ids) == ids.filter(is_there).map_values(|id: Option<TemplateNodeId>| id->0),
    decreases ids.len(),
{
    reveal(Seq::filter);
    if ids.len() > 0 {
        lemma_present_in_order(ids.drop_last(), is_there);
        assert(is_there(ids.last()) == (ids.last() is Some));
    }
    assert(present(ids) =~= ids.filter(is_there).map_values(
        |id: Option<TemplateNodeId>| id->0,
    ));
}

/// The nodes that hydration visits are, in this order and with nothing left out: those to be replaced,
/// those of each dynamic text, those of each dynamic attribute, and those with listeners.
pub proof fn law_all_dynamic_is_in_order(mapping: MappingView)
    ensures
        mapping.all_dynamic() == mapping.nodes.filter(
            |id: Option<TemplateNodeId>| id is Some,
        ).map_values(|id: Option<TemplateNodeId>| id->0) + mapping.text.flatten()
            + mapping.attributes.flatten().map_values(
            |attribute: (TemplateNodeId, usize)| attribute.0,
        ) + mapping.nodes_with_listeners,
{
    lemma_present_in_order(mapping.nodes, |id: Option<TemplateNodeId>| id is Some);
    assert(mapping.all_dynamic() =~= mapping.nodes.filter(
        |id: Option<TemplateNodeId>| id is Some,
    ).map_values(|id: Option<TemplateNodeId>| id->0) + mapping.text.flatten()
        + mapping.attributes.flatten().map_values(
        |attribute: (TemplateNodeId, usize)| attribute.0,
    ) + mapping.nodes_with_listeners);
}

/// A node is visited exactly where it is to be replaced, shows a dynamic text, has a dynamic attribute
/// or has a listener.
pub proof fn law_which_nodes_are_visited(mapping: MappingView, id: TemplateNodeId)
    ensures
        mapping.all_dynamic().contains(id) <==> {
            ||| mapping.nodes.contains(Some(id))
            ||| exists|i: int, k: int|
                0 <= i < mapping.text.len() && 0 <= k < mapping.text[i].len()
                    && #[trigger] mapping.text[i][k] == id
            ||| exists|i: int, k: int|
                0 <= i < mapping.attributes.len() && 0 <= k < mapping.attributes[i].len() && (
                #[trigger] mapping.attributes[i][k]).0 == id
            ||| mapping.nodes_with_listeners.contains(id)
        },
{
    law_all_dynamic_is_complete(mapping, id);
    if exists|i: int| 0 <= i < mapping.nodes.len() && #[trigger] mapping.nodes[i] == Some(id) {
        assert(mapping.nodes.contains(Some(id)));
    }
    if exists|i: int| 0 <= i < mapping.text.len() && (#[trigger] mapping.text[i]).contains(id) {
        let i = choose|i: int|
            0 <= i < mapping.text.len() && (#[trigger] mapping.text[i]).contains(id);
        let k = mapping.text[i].index_of(id);
        assert(mapping.text[i][k] == id);
    }
    if exists|i: int, k: int|
        0 <= i < mapping.text.len() && 0 <= k < mapping.text[i].len()
            && #[trigger] mapping.text[i][k] == id {
        let (i, k) = choose|i: int, k: int|
            0 <= i < mapping.text.len() && 0 <= k < mapping.text[i].len()
                && #[trigger] mapping.text[i][k] == id;
        assert(mapping.text[i].contains(id));
    }
    if exists|i: int|
        0 <= i < mapping.attributes.len() && attribute_ids(
            #[trigger] mapping.attributes[i],
        ).contains(id) {
        let i = choose|i: int|
            0 <= i < mapping.attributes.len() && attribute_ids(
                #[trigger] mapping.attributes[i],
            ).contains(id);
        let k = attribute_ids(mapping.attributes[i]).index_of(id);
        assert(mapping.attributes[i][k].0 == id);
    }
    if exists|i: int, k: int|
        0 <= i < mapping.attributes.len() && 0 <= k < mapping.attributes[i].len() && (
        #[trigger] mapping.attributes[i][k]).0 == id {
        let (i, k) = choose|i: int, k: int|
            0 <= i < mapping.attributes.len() && 0 <= k < mapping.attributes[i].len() && (
            #[trigger] mapping.attributes[i][k]).0 == id;
        assert(attribute_ids(mapping.attributes[i])[k] == id);
        assert(attribute_ids(mapping.attributes[i]).contains(id));
    }
}

/// What a mapping says is what its lists hold, position by position.
pub proof fn law_what_a_mapping_says<
    Nodes,
    TextOuter,
    TextInner,
    AttributesOuter,
    AttributesInner,
    Volatile,
    Listeners,
>(
    mapping: DynamicNodeMapping<
        Nodes,
        TextOuter,
        TextInner,
        AttributesOuter,
        AttributesInner,
        Volatile,
        Listeners,
    >,
) where
    Nodes: AsSlice<Option<TemplateNodeId>>,
    TextOuter: AsSlice<TextInner>,
    TextInner: AsSlice<TemplateNodeId>,
    AttributesOuter: AsSlice<AttributesInner>,
    AttributesInner: AsSlice<(TemplateNodeId, usize)>,
    Volatile: AsSlice<(TemplateNodeId, usize)>,
    Listeners: AsSlice<TemplateNodeId>,

    ensures
        mapping@.nodes == mapping.nodes.elements(),
        mapping@.volatile_attributes == mapping.volatile_attributes.elements(),
        mapping@.nodes_with_listeners == mapping.nodes_with_listeners.elements(),
        mapping@.text.len() == mapping.text.elements().len(),
        mapping@.attributes.len() == mapping.attributes.elements().len(),
        forall|i: int|
            0 <= i < mapping@.text.len() ==> (#[trigger] mapping@.text[i])
                == mapping.text.elements()[i].elements(),
        forall|i: int|
            0 <= i < mapping@.attributes.len() ==> (#[trigger] mapping@.attributes[i])
                == mapping.attributes.elements()[i].elements(),
{
}

/// A mapping lists the nodes to be replaced, those of each dynamic text, those of each dynamic attribute
/// and those with listeners, in this order. A new one holds what it is made of.
pub proof fn law_what_a_mapping_lists<
    Nodes,
    TextOuter,
    TextInner,
    AttributesOuter,
    AttributesInner,
    Volatile,
    Listeners,
>(
    mapping: &DynamicNodeMapping<
        Nodes,
        TextOuter,
        TextInner,
        AttributesOuter,
        AttributesInner,
        Volatile,
        Listeners,
    >,
    res: Vec<TemplateNodeId>,
    nodes: Nodes,
    text: TextOuter,
    attributes: AttributesOuter,
    volatile_attributes: Volatile,
    nodes_with_listeners: Listeners,
    made: DynamicNodeMapping<
        Nodes,
        TextOuter,
        TextInner,
        AttributesOuter,
        AttributesInner,
        Volatile,
        Listeners,
    >,
) where
    Nodes: AsSlice<Option<TemplateNodeId>>,
    TextOuter: AsSlice<TextInner>,
    TextInner: AsSlice<TemplateNodeId>,
    AttributesOuter: AsSlice<AttributesInner>,
    AttributesInner: AsSlice<(TemplateNodeId, usize)>,
    Volatile: AsSlice<(TemplateNodeId, usize)>,
    Listeners: AsSlice<TemplateNodeId>,

    ensures
        call_ensures(
            DynamicNodeMapping::<
                Nodes,
                TextOuter,
                TextInner,
                AttributesOuter,
                AttributesInner,
                Volatile,
                Listeners,
            >::all_dynamic,
            (mapping,),
            res,
        ) ==> res@ == mapping.nodes.elements().filter(
            |id: Option<TemplateNodeId>| id is Some,
        ).map_values(|id: Option<TemplateNodeId>| id->0) + mapping.text.elements().map_values(
            |inner: TextInner| inner.elements(),
        ).flatten() + mapping.attributes.elements().map_values(
            |inner: AttributesInner| inner.elements(),
        ).flatten().map_values(|attribute: (TemplateNodeId, usize)| attribute.0)
            + mapping.nodes_with_listeners.elements(),
        call_ensures(
            DynamicNodeMapping::<
                Nodes,
                TextOuter,
                TextInner,
                AttributesOuter,
                AttributesInner,
                Volatile,
                Listeners,
            >::new,
            (nodes, text, attributes, volatile_attributes, nodes_with_listeners),
            made,
        ) ==> {
            &&& made.nodes == nodes
            &&& made.text == text
            &&& made.attributes == attributes
            &&& made.volatile_attributes == volatile_attributes
            &&& made.nodes_with_listeners == nodes_with_listeners
        },
{
    law_all_dynamic_is_in_order(mapping@);
    assert(mapping@.text =~= mapping.text.elements().map_values(
        |inner: TextInner| inner.elements(),
    ));
    assert(mapping@.attributes =~= mapping.attributes.elements().map_values(
        |inner: AttributesInner| inner.elements(),
    ));
}

} // verus!
