//! The nodes of a template.
//!
//! A node is generic over the storage of its parts, so that there are `'static` and heap versions
//! of it. The contracts speak of [`NodeView`] and [`NodeKindView`], which are the same for both.
use std::marker::PhantomData;
use vstd::prelude::*;

use crate::ids::TemplateNodeId;
use crate::least::{least, lemma_least};
use crate::storage::{optional_text, AsSlice, AsText};
use crate::value::{AttributeValueView, OwnedAttributeValue, StaticAttributeValue, TemplateValue};

verus! {

/// What an attribute is called and how it is treated.
#[derive(Debug, Clone, Copy, PartialEq, Eq)]
pub struct AttributeDiscription {
    /// The name of the attribute.
    pub name: &'static str,
    /// The namespace of the attribute.
    pub namespace: Option<&'static str>,
    /// If the document may change the attribute by itself, so that it must be set every time.
    pub volatile: bool,
}

/// The mathematical view of an [`AttributeDiscription`].
pub struct DescriptionView {
    pub name: Seq<char>,
    pub namespace: Option<Seq<char>>,
    pub volatile: bool,
}

impl View for AttributeDiscription {
    type V = DescriptionView;

    open spec fn view(&self) -> DescriptionView {
        DescriptionView {
            name: self.name@,
            namespace: optional_text(self.namespace),
            volatile: self.volatile,
        }
    }
}

/// A template for an attribute.
#[derive(Debug, Clone, PartialEq, Eq)]
pub struct TemplateAttribute<V: TemplateValue> {
    /// The description of the attribute.
    pub attribute: AttributeDiscription,
    /// The value of the attribute.
    pub value: TemplateAttributeValue<V>,
}

/// A template attribute value that is either dynamic or static.
#[derive(Debug, Clone, PartialEq, Eq)]
pub enum TemplateAttributeValue<V: TemplateValue> {
    /// A static attribute.
    Static(V),
    /// A dynamic attribute: the index of its value in the dynamic context.
    Dynamic(usize),
}

/// The mathematical view of a [`TemplateAttributeValue`].
pub enum TemplateAttributeValueView {
    Static(AttributeValueView),
    Dynamic(usize),
}

/// The mathematical view of a [`TemplateAttribute`].
pub struct TemplateAttributeView {
    pub attribute: DescriptionView,
    pub value: TemplateAttributeValueView,
}

impl<V: TemplateValue> View for TemplateAttribute<V> {
    type V = TemplateAttributeView;

    open spec fn view(&self) -> TemplateAttributeView {
        TemplateAttributeView {
            attribute: self.attribute@,
            value: match self.value {
                TemplateAttributeValue::Static(value) => TemplateAttributeValueView::Static(
                    value.value(),
                ),
                TemplateAttributeValue::Dynamic(idx) => TemplateAttributeValueView::Dynamic(idx),
            },
        }
    }
}

/// A segment of a text template that may be dynamic or static.
#[derive(Debug, Clone, PartialEq, Eq)]
pub enum TextTemplateSegment<Text> where Text: AsText {
    /// A constant text segment.
    Static(Text),
    /// A dynamic text segment: the index of its text in the dynamic context.
    Dynamic(usize),
}

/// The mathematical view of a [`TextTemplateSegment`].
pub enum TextSegmentView {
    Static(Seq<char>),
    Dynamic(usize),
}

impl<Text: AsText> View for TextTemplateSegment<Text> {
    type V = TextSegmentView;

    open spec fn view(&self) -> TextSegmentView {
        match self {
            TextTemplateSegment::Static(text) => TextSegmentView::Static(text.text()),
            TextTemplateSegment::Dynamic(idx) => TextSegmentView::Dynamic(*idx),
        }
    }
}

/// The views of a text's segments.
pub open spec fn segment_views<Text: AsText>(segments: Seq<TextTemplateSegment<Text>>) -> Seq<
    TextSegmentView,
> {
    segments.map_values(|segment: TextTemplateSegment<Text>| segment@)
}

/// A template for some text that may contain dynamic segments. For example "Hello {name}" contains
/// the static segment "Hello " and the dynamic segment "{name}".
#[derive(Debug, Copy, PartialEq, Eq)]
pub struct TextTemplate<Segments, Text> where
    Segments: AsSlice<TextTemplateSegment<Text>>,
    Text: AsText,
 {
    /// The segments of the template.
    pub segments: Segments,
    pub text: PhantomData<Text>,
}

impl<Segments, Text> TextTemplate<Segments, Text> where
    Segments: AsSlice<TextTemplateSegment<Text>>,
    Text: AsText,
 {
    /// Create a new template from the segments it is composed of.
    pub fn new(segments: Segments) -> (res: Self)
        ensures
            res.segments == segments,
    {
        TextTemplate { segments, text: PhantomData }
    }
}

impl<Segments, Text> Clone for TextTemplate<Segments, Text> where
    Segments: AsSlice<TextTemplateSegment<Text>> + Clone,
    Text: AsText,
 {
    fn clone(&self) -> (res: Self)
        ensures
            cloned(self.segments, res.segments),
    {
        TextTemplate { segments: self.segments.clone(), text: PhantomData }
    }
}

/// An element template.
#[derive(Debug, Copy, PartialEq, Eq)]
pub struct TemplateElement<Attributes, V, Children, Listeners> where
    Attributes: AsSlice<TemplateAttribute<V>>,
    Children: AsSlice<TemplateNodeId>,
    Listeners: AsSlice<usize>,
    V: TemplateValue,
 {
    /// The tag name of the element.
    pub tag: &'static str,
    /// The namespace of the element.
    pub namespace: Option<&'static str>,
    /// The attributes that modify the element.
    pub attributes: Attributes,
    /// The ids of the children of the element.
    pub children: Children,
    /// The indices of the listeners of the element.
    pub listeners: Listeners,
    /// The parent of the element.
    pub parent: Option<TemplateNodeId>,
    pub value: PhantomData<V>,
}

/// The mathematical view of a [`TemplateElement`].
pub struct ElementView {
    pub tag: Seq<char>,
    pub namespace: Option<Seq<char>>,
    pub attributes: Seq<TemplateAttributeView>,
    pub children: Seq<TemplateNodeId>,
    pub listeners: Seq<usize>,
    pub parent: Option<TemplateNodeId>,
}

/// The views of an element's attributes.
pub open spec fn attribute_views<V: TemplateValue>(attributes: Seq<TemplateAttribute<V>>) -> Seq<
    TemplateAttributeView,
> {
    attributes.map_values(|attribute: TemplateAttribute<V>| attribute@)
}

impl<Attributes, V, Children, Listeners> View for TemplateElement<
    Attributes,
    V,
    Children,
    Listeners,
> where
    Attributes: AsSlice<TemplateAttribute<V>>,
    Children: AsSlice<TemplateNodeId>,
    Listeners: AsSlice<usize>,
    V: TemplateValue,
 {
    type V = ElementView;

    open spec fn view(&self) -> ElementView {
        ElementView {
            tag: self.tag@,
            namespace: optional_text(self.namespace),
            attributes: attribute_views(self.attributes.elements()),
            children: self.children.elements(),
            listeners: self.listeners.elements(),
            parent: self.parent,
        }
    }
}

impl<Attributes, V, Children, Listeners> TemplateElement<
    Attributes,
    V,
    Children,
    Listeners,
> where
    Attributes: AsSlice<TemplateAttribute<V>>,
    Children: AsSlice<TemplateNodeId>,
    Listeners: AsSlice<usize>,
    V: TemplateValue,
 {
    /// Create a new element template.
    pub fn new(
        tag: &'static str,
        namespace: Option<&'static str>,
        attributes: Attributes,
        children: Children,
        listeners: Listeners,
        parent: Option<TemplateNodeId>,
    ) -> (res: Self)
        ensures
            res.tag == tag,
            res.namespace == namespace,
            res.attributes == attributes,
            res.children == children,
            res.listeners == listeners,
            res.parent == parent,
    {
        TemplateElement {
            tag,
            namespace,
            attributes,
            children,
            listeners,
            parent,
            value: PhantomData,
        }
    }
}

impl<Attributes, V, Children, Listeners> Clone for TemplateElement<
    Attributes,
    V,
    Children,
    Listeners,
> where
    Attributes: AsSlice<TemplateAttribute<V>> + Clone,
    Children: AsSlice<TemplateNodeId> + Clone,
    Listeners: AsSlice<usize> + Clone,
    V: TemplateValue,
 {
    fn clone(&self) -> (res: Self)
        ensures
            res.tag == self.tag,
            res.namespace == self.namespace,
            cloned(self.attributes, res.attributes),
            cloned(self.children, res.children),
            cloned(self.listeners, res.listeners),
            res.parent == self.parent,
    {
        TemplateElement {
            tag: self.tag,
            namespace: self.namespace,
            attributes: self.attributes.clone(),
            children: self.children.clone(),
            listeners: self.listeners.clone(),
            parent: self.parent,
            value: PhantomData,
        }
    }
}

/// The kind of node the template is.
#[derive(Debug, Clone, Copy, PartialEq, Eq)]
pub enum TemplateNodeType<Attributes, V, Children, Listeners, TextSegments, Text> where
    Attributes: AsSlice<TemplateAttribute<V>>,
    Children: AsSlice<TemplateNodeId>,
    Listeners: AsSlice<usize>,
    V: TemplateValue,
    TextSegments: AsSlice<TextTemplateSegment<Text>>,
    Text: AsText,
 {
    /// An element node.
    Element(TemplateElement<Attributes, V, Children, Listeners>),
    /// A text node.
    Text(TextTemplate<TextSegments, Text>),
    /// A dynamic node: the index in the dynamic node array of the node that replaces it.
    DynamicNode(usize),
}

/// The mathematical view of a [`TemplateNodeType`].
pub enum NodeKindView {
    Element(ElementView),
    Text(Seq<TextSegmentView>),
    DynamicNode(usize),
}

impl NodeKindView {
    /// Nothing of the node itself comes from the dynamic context.
    pub open spec fn locally_static(self) -> bool {
        match self {
            NodeKindView::Element(element) => {
                &&& forall|i: int|
                    0 <= i < element.attributes.len() ==> (
                    #[trigger] element.attributes[i]).value is Static
                &&& element.listeners.len() == 0
            },
            NodeKindView::Text(segments) => forall|i: int|
                0 <= i < segments.len() ==> #[trigger] segments[i] is Static,
            NodeKindView::DynamicNode(_) => false,
        }
    }

    /// The ids of the node's children.
    pub open spec fn children(self) -> Seq<TemplateNodeId> {
        match self {
            NodeKindView::Element(element) => element.children,
            _ => Seq::empty(),
        }
    }
}

impl<Attributes, V, Children, Listeners, TextSegments, Text> View for TemplateNodeType<
    Attributes,
    V,
    Children,
    Listeners,
    TextSegments,
    Text,
> where
    Attributes: AsSlice<TemplateAttribute<V>>,
    Children: AsSlice<TemplateNodeId>,
    Listeners: AsSlice<usize>,
    V: TemplateValue,
    TextSegments: AsSlice<TextTemplateSegment<Text>>,
    Text: AsText,
 {
    type V = NodeKindView;

    open spec fn view(&self) -> NodeKindView {
        match self {
            TemplateNodeType::Element(element) => NodeKindView::Element(element@),
            TemplateNodeType::Text(text) => NodeKindView::Text(
                segment_views(text.segments.elements()),
            ),
            TemplateNodeType::DynamicNode(idx) => NodeKindView::DynamicNode(*idx),
        }
    }
}

/// The views of a list of node kinds.
pub open spec fn kind_views<Attributes, V, Children, Listeners, TextSegments, Text>(
    kinds: Seq<TemplateNodeType<Attributes, V, Children, Listeners, TextSegments, Text>>,
) -> Seq<NodeKindView> where
    Attributes: AsSlice<TemplateAttribute<V>>,
    Children: AsSlice<TemplateNodeId>,
    Listeners: AsSlice<usize>,
    V: TemplateValue,
    TextSegments: AsSlice<TextTemplateSegment<Text>>,
    Text: AsText,
 {
    kinds.map_values(
        |kind: TemplateNodeType<Attributes, V, Children, Listeners, TextSegments, Text>| kind@,
    )
}

/// The node at the end of a path that starts at `kind`. Each number of the path is the position of
/// the next node among the children of the one before. `None` where the path leaves the template.
pub open spec fn descendant(
    kinds: Seq<NodeKindView>,
    kind: NodeKindView,
    path: Seq<int>,
) -> Option<NodeKindView>
    decreases path.len(),
{
    if path.len() == 0 {
        Some(kind)
    } else if 0 <= path[0] < kind.children().len() && kind.children()[path[0]].0 < kinds.len() {
        descendant(kinds, kinds[kind.children()[path[0]].0 as int], path.drop_first())
    } else {
        None
    }
}

/// The node and everything below it is locally static.
pub open spec fn fully_static(kinds: Seq<NodeKindView>, kind: NodeKindView) -> bool {
    forall|path: Seq<int>|
        (#[trigger] descendant(kinds, kind, path)) matches Some(below) ==> below.locally_static()
}

/// The child `id` is in the template, and it and everything below it is locally static.
pub open spec fn child_fully_static(kinds: Seq<NodeKindView>, id: TemplateNodeId) -> bool {
    id.0 < kinds.len() && fully_static(kinds, kinds[id.0 as int])
}

/// Whether the node is fully static can be found out by looking at most `depth` levels down. A
/// child is looked at only where the node itself is locally static and all children before that
/// one are fully static; those that are looked at must be in the template.
pub open spec fn decidable_within(
    kinds: Seq<NodeKindView>,
    kind: NodeKindView,
    depth: nat,
) -> bool
    decreases depth,
{
    kind.locally_static() ==> forall|i: int|
        #![trigger kind.children()[i]]
        0 <= i < kind.children().len() && (forall|j: int|
            0 <= j < i ==> child_fully_static(kinds, #[trigger] kind.children()[j])) ==> {
            &&& kind.children()[i].0 < kinds.len()
            &&& depth > 0
            &&& decidable_within(
                kinds,
                kinds[kind.children()[i].0 as int],
                (depth - 1) as nat,
            )
        }
}

/// Whether the node is fully static can be found out: the search stays within the template and
/// comes to an end.
pub open spec fn decidable(kinds: Seq<NodeKindView>, kind: NodeKindView) -> bool {
    exists|depth: nat| decidable_within(kinds, kind, depth)
}

/// How many levels down one has to look.
pub closed spec fn decision_depth(kinds: Seq<NodeKindView>, kind: NodeKindView) -> nat {
    least(|depth: nat| decidable_within(kinds, kind, depth))
}

proof fn lemma_decision_depth_of_child(kinds: Seq<NodeKindView>, kind: NodeKindView, i: int)
    requires
        decidable(kinds, kind),
        kind.locally_static(),
        0 <= i < kind.children().len(),
        forall|j: int| 0 <= j < i ==> child_fully_static(kinds, #[trigger] kind.children()[j]),
    ensures
        kind.children()[i].0 < kinds.len(),
        decidable(kinds, kinds[kind.children()[i].0 as int]),
        decision_depth(kinds, kinds[kind.children()[i].0 as int]) < decision_depth(kinds, kind),
{
    let within = |depth: nat| decidable_within(kinds, kind, depth);
    let depth = choose|depth: nat| decidable_within(kinds, kind, depth);
    assert(within(depth));
    lemma_least(within, depth);
    let least_depth = decision_depth(kinds, kind);
    assert(decidable_within(kinds, kind, least_depth));
    let child = kinds[kind.children()[i].0 as int];
    let child_within = |depth: nat| decidable_within(kinds, child, depth);
    assert(child_within((least_depth - 1) as nat));
    lemma_least(child_within, (least_depth - 1) as nat);
}

/// What is below a child is below the node.
proof fn lemma_fully_static_goes_down(kinds: Seq<NodeKindView>, kind: NodeKindView, i: int)
    requires
        fully_static(kinds, kind),
        0 <= i < kind.children().len(),
        kind.children()[i].0 < kinds.len(),
    ensures
        fully_static(kinds, kinds[kind.children()[i].0 as int]),
{
    let child = kinds[kind.children()[i].0 as int];
    assert forall|path: Seq<int>|
        (#[trigger] descendant(kinds, child, path)) is Some implies descendant(
        kinds,
        child,
        path,
    )->0.locally_static() by {
        let longer = seq![i] + path;
        assert(longer.drop_first() =~= path);
        assert(descendant(kinds, kind, longer) == descendant(kinds, child, path));
    }
}

/// What is below the node is the node itself or below one of its children.
proof fn lemma_fully_static_goes_up(kinds: Seq<NodeKindView>, kind: NodeKindView)
    requires
        kind.locally_static(),
        forall|i: int|
            0 <= i < kind.children().len() ==> child_fully_static(
                kinds,
                #[trigger] kind.children()[i],
            ),
    ensures
        fully_static(kinds, kind),
{
    assert forall|path: Seq<int>|
        (#[trigger] descendant(kinds, kind, path)) is Some implies descendant(
        kinds,
        kind,
        path,
    )->0.locally_static() by {
        if path.len() > 0 {
            assert(child_fully_static(kinds, kind.children()[path[0]]));
            let child = kinds[kind.children()[path[0]].0 as int];
            assert(descendant(kinds, child, path.drop_first()) is Some);
        }
    }
}

/// A node whose children are all in the template is fully static exactly where it is locally static
/// and its children are fully static.
pub proof fn law_fully_static_is_recursive(kinds: Seq<NodeKindView>, kind: NodeKindView)
    requires
        forall|i: int|
            0 <= i < kind.children().len() ==> (#[trigger] kind.children()[i]).0 < kinds.len(),
    ensures
        fully_static(kinds, kind) <==> {
            &&& kind.locally_static()
            &&& forall|i: int|
                0 <= i < kind.children().len() ==> child_fully_static(
                    kinds,
                    #[trigger] kind.children()[i],
                )
        },
{
    if fully_static(kinds, kind) {
        assert(descendant(kinds, kind, Seq::empty()) == Some(kind));
        assert forall|i: int| 0 <= i < kind.children().len() implies child_fully_static(
            kinds,
            #[trigger] kind.children()[i],
        ) by {
            lemma_fully_static_goes_down(kinds, kind, i);
        }
    } else if kind.locally_static() && forall|i: int|
        0 <= i < kind.children().len() ==> child_fully_static(
            kinds,
            #[trigger] kind.children()[i],
        ) {
        lemma_fully_static_goes_up(kinds, kind);
    }
}

impl<Attributes, V, Children, Listeners, TextSegments, Text> TemplateNodeType<
    Attributes,
    V,
    Children,
    Listeners,
    TextSegments,
    Text,
> where
    Attributes: AsSlice<TemplateAttribute<V>>,
    Children: AsSlice<TemplateNodeId>,
    Listeners: AsSlice<usize>,
    V: TemplateValue,
    TextSegments: AsSlice<TextTemplateSegment<Text>>,
    Text: AsText,
 {
    /// Returns if this node, and its children, are static.
    ///
    /// `nodes` holds the nodes of the template, found by their ids. The search stops at the first
    /// node that is not static.
    pub fn fully_static<Nodes: AsSlice<Self>>(&self, nodes: &Nodes) -> (res: bool)
        requires
            decidable(kind_views(nodes.elements()), self@),
        ensures
            res == fully_static(kind_views(nodes.elements()), self@),
        decreases decision_depth(kind_views(nodes.elements()), self@),
    {
        let ghost kinds = kind_views(nodes.elements());
        if !self.locally_static() {
            assert(descendant(kinds, self@, Seq::empty()) == Some(self@));
            return false;
        }
        match self {
            TemplateNodeType::Element(element) => {
                let children: &[TemplateNodeId] = element.children.as_slice();
                let mut i: usize = 0;
                while i < children.len()
                    invariant
                        i <= children.len(),
                        kinds == kind_views(nodes.elements()),
                        children@ == self@.children(),
                        self@.locally_static(),
                        decidable(kinds, self@),
                        forall|j: int|
                            0 <= j < i ==> child_fully_static(
                                kinds,
                                #[trigger] self@.children()[j],
                            ),
                    decreases children.len() - i,
                {
                    proof {
                        lemma_decision_depth_of_child(kinds, self@, i as int);
                    }
                    let child: &Self = &nodes.as_slice()[children[i].0];
                    assert(child@ == kinds[children[i as int].0 as int]);
                    if !child.fully_static(nodes) {
                        proof {
                            if fully_static(kinds, self@) {
                                lemma_fully_static_goes_down(kinds, self@, i as int);
                            }
                        }
                        return false;
                    }
                    i += 1;
                }
                proof {
                    lemma_fully_static_goes_up(kinds, self@);
                }
                true
            },
            _ => {
                proof {
                    lemma_fully_static_goes_up(kinds, self@);
                }
                true
            },
        }
    }

    /// Returns if this node is static.
    pub fn locally_static(&self) -> (res: bool)
        ensures
            res == self@.locally_static(),
    {
        match self {
            TemplateNodeType::Element(element) => {
                let attributes: &[TemplateAttribute<V>] = element.attributes.as_slice();
                let mut i: usize = 0;
                while i < attributes.len()
                    invariant
                        i <= attributes.len(),
                        attributes@ == element.attributes.elements(),
                        self@ == NodeKindView::Element(element@),
                        forall|j: int|
                            0 <= j < i ==> (#[trigger] element@.attributes[j]).value is Static,
                    decreases attributes.len() - i,
                {
                    assert(element@.attributes[i as int] == attributes@[i as int]@);
                    match attributes[i].value {
                        TemplateAttributeValue::Static(_) => {},
                        TemplateAttributeValue::Dynamic(_) => {
                            return false;
                        },
                    }
                    i += 1;
                }
                element.listeners.as_slice().len() == 0
            },
            TemplateNodeType::Text(text) => {
                let segments: &[TextTemplateSegment<Text>] = text.segments.as_slice();
                let ghost views = segment_views(text.segments.elements());
                let mut i: usize = 0;
                while i < segments.len()
                    invariant
                        i <= segments.len(),
                        segments@ == text.segments.elements(),
                        views == segment_views(text.segments.elements()),
                        self@ == NodeKindView::Text(views),
                        forall|j: int| 0 <= j < i ==> #[trigger] views[j] is Static,
                    decreases segments.len() - i,
                {
                    assert(views[i as int] == segments@[i as int]@);
                    match &segments[i] {
                        TextTemplateSegment::Static(_) => {},
                        TextTemplateSegment::Dynamic(_) => {
                            return false;
                        },
                    }
                    i += 1;
                }
                true
            },
            TemplateNodeType::DynamicNode(_) => false,
        }
    }
}

/// Templates can only contain a limited subset of nodes, and keys are not needed, as diffing will be
/// skipped. Dynamic parts of the template are filled in from the dynamic context.
///
/// This template node is generic over the storage of its parts to allow for owned and `'static`
/// versions.
#[derive(Debug, Clone, Copy, PartialEq, Eq)]
pub struct TemplateNode<Attributes, V, Children, Listeners, TextSegments, Text> where
    Attributes: AsSlice<TemplateAttribute<V>>,
    V: TemplateValue,
    Children: AsSlice<TemplateNodeId>,
    Listeners: AsSlice<usize>,
    TextSegments: AsSlice<TextTemplateSegment<Text>>,
    Text: AsText,
 {
    /// The id of the node. This is not an element id, and should be allocated separately from the
    /// elements on the frontend.
    pub id: TemplateNodeId,
    /// If the id of the node must be kept in the references.
    pub locally_static: bool,
    /// If any children of this node must be kept in the references.
    pub fully_static: bool,
    /// The kind of the node.
    pub node_type: TemplateNodeType<Attributes, V, Children, Listeners, TextSegments, Text>,
}

/// The mathematical view of a [`TemplateNode`].
pub struct NodeView {
    pub id: TemplateNodeId,
    pub locally_static: bool,
    pub fully_static: bool,
    pub kind: NodeKindView,
}

impl<Attributes, V, Children, Listeners, TextSegments, Text> View for TemplateNode<
    Attributes,
    V,
    Children,
    Listeners,
    TextSegments,
    Text,
> where
    Attributes: AsSlice<TemplateAttribute<V>>,
    V: TemplateValue,
    Children: AsSlice<TemplateNodeId>,
    Listeners: AsSlice<usize>,
    TextSegments: AsSlice<TextTemplateSegment<Text>>,
    Text: AsText,
 {
    type V = NodeView;

    open spec fn view(&self) -> NodeView {
        NodeView {
            id: self.id,
            locally_static: self.locally_static,
            fully_static: self.fully_static,
            kind: self.node_type@,
        }
    }
}

/// The views of a list of nodes.
pub open spec fn node_views<Attributes, V, Children, Listeners, TextSegments, Text>(
    nodes: Seq<TemplateNode<Attributes, V, Children, Listeners, TextSegments, Text>>,
) -> Seq<NodeView> where
    Attributes: AsSlice<TemplateAttribute<V>>,
    V: TemplateValue,
    Children: AsSlice<TemplateNodeId>,
    Listeners: AsSlice<usize>,
    TextSegments: AsSlice<TextTemplateSegment<Text>>,
    Text: AsText,
 {
    nodes.map_values(
        |node: TemplateNode<Attributes, V, Children, Listeners, TextSegments, Text>| node@,
    )
}

/// A template node that is made of `'static` references.
pub type StaticTemplateNode = TemplateNode<
    &'static [TemplateAttribute<StaticAttributeValue>],
    StaticAttributeValue,
    &'static [TemplateNodeId],
    &'static [usize],
    &'static [TextTemplateSegment<&'static str>],
    &'static str,
>;

/// A heap allocated template node.
pub type OwnedTemplateNode = TemplateNode<
    Vec<TemplateAttribute<OwnedAttributeValue>>,
    OwnedAttributeValue,
    Vec<TemplateNodeId>,
    Vec<usize>,
    Vec<TextTemplateSegment<String>>,
    String,
>;

/// An element is locally static exactly where each attribute is static and there is no listener, a
/// text exactly where each segment is static, and a dynamic node never.
pub proof fn law_what_is_locally_static(kind: NodeKindView)
    ensures
        kind matches NodeKindView::Element(element) ==> (!kind.locally_static() <==> {
            ||| element.listeners.len() > 0
            ||| exists|i: int|
                0 <= i < element.attributes.len() && (
                #[trigger] element.attributes[i]).value is Dynamic
        }),
        kind matches NodeKindView::Text(segments) ==> (!kind.locally_static() <==> exists|i: int|
            0 <= i < segments.len() && (#[trigger] segments[i]) is Dynamic),
        kind is DynamicNode ==> !kind.locally_static(),
{
}

/// To join two lists of attributes, of listeners or of segments gives something static exactly where
/// both lists are static by themselves.
pub proof fn law_static_parts_can_be_joined(
    a: ElementView,
    b: ElementView,
    first: Seq<TextSegmentView>,
    second: Seq<TextSegmentView>,
)
    ensures
        NodeKindView::Element(
            ElementView {
                attributes: a.attributes + b.attributes,
                listeners: a.listeners + b.listeners,
                ..a
            },
        ).locally_static() <==> NodeKindView::Element(a).locally_static() && NodeKindView::Element(
            b,
        ).locally_static(),
        NodeKindView::Text(first + second).locally_static() <==> NodeKindView::Text(
            first,
        ).locally_static() && NodeKindView::Text(second).locally_static(),
{
    let attributes = a.attributes + b.attributes;
    let both = NodeKindView::Element(
        ElementView { attributes, listeners: a.listeners + b.listeners, ..a },
    );
    if both.locally_static() {
        assert forall|i: int| 0 <= i < a.attributes.len() implies (
        #[trigger] a.attributes[i]).value is Static by {
            assert(attributes[i].value is Static);
        }
        assert forall|i: int| 0 <= i < b.attributes.len() implies (
        #[trigger] b.attributes[i]).value is Static by {
            assert(attributes[a.attributes.len() + i].value is Static);
        }
    }
    let segments = first + second;
    if NodeKindView::Text(segments).locally_static() {
        assert forall|i: int| 0 <= i < first.len() implies (#[trigger] first[i]) is Static by {
            assert(segments[i] is Static);
        }
        assert forall|i: int| 0 <= i < second.len() implies (#[trigger] second[i]) is Static by {
            assert(segments[first.len() + i] is Static);
        }
    }
}

/// Whether a node is fully static is decided by the node and its children: an element has only static
/// attributes, no listeners and only fully static children; a text has only static segments; a dynamic
/// node is not static. A child that is not in the template does not count.
pub proof fn law_what_is_fully_static(kinds: Seq<NodeKindView>, kind: NodeKindView)
    ensures
        kind matches NodeKindView::Element(element) ==> (fully_static(kinds, kind) <==> {
            &&& element.listeners.len() == 0
            &&& forall|i: int|
                0 <= i < element.attributes.len() ==> (
                #[trigger] element.attributes[i]).value is Static
            &&& forall|i: int|
                0 <= i < element.children.len() && (#[trigger] element.children[i]).0 < kinds.len()
                    ==> fully_static(kinds, kinds[element.children[i].0 as int])
        }),
        kind matches NodeKindView::Text(segments) ==> (fully_static(kinds, kind) <==> forall|i: int|
            0 <= i < segments.len() ==> (#[trigger] segments[i]) is Static),
        kind is DynamicNode ==> !fully_static(kinds, kind),
{
    if fully_static(kinds, kind) {
        assert(descendant(kinds, kind, Seq::empty()) == Some(kind));
        assert(kind.locally_static());
        assert forall|i: int|
            0 <= i < kind.children().len() && (#[trigger] kind.children()[i]).0
                < kinds.len() implies fully_static(
            kinds,
            kinds[kind.children()[i].0 as int],
        ) by {
            lemma_fully_static_goes_down(kinds, kind, i);
        }
    }
    if kind.locally_static() && forall|i: int|
        0 <= i < kind.children().len() && (#[trigger] kind.children()[i]).0 < kinds.len()
            ==> fully_static(kinds, kinds[kind.children()[i].0 as int]) {
        assert forall|path: Seq<int>|
            (#[trigger] descendant(kinds, kind, path)) is Some implies descendant(
            kinds,
            kind,
            path,
        )->0.locally_static() by {
            if path.len() > 0 {
                let id = kind.children()[path[0]];
                assert(fully_static(kinds, kinds[id.0 as int]));
                assert(descendant(kinds, kinds[id.0 as int], path.drop_first()) is Some);
            }
        }
    }
}

/// Of a node that is not locally static it can always be found out that it is not fully static.
pub proof fn law_dynamic_nodes_are_decidable(kinds: Seq<NodeKindView>, kind: NodeKindView)
    requires
        !kind.locally_static(),
    ensures
        decidable(kinds, kind),
        !fully_static(kinds, kind),
{
    assert(decidable_within(kinds, kind, 0));
    assert(descendant(kinds, kind, Seq::empty()) == Some(kind));
}

/// What an attribute says is its description, and its value or the index of its value.
pub proof fn law_what_an_attribute_says<V: TemplateValue>(attribute: TemplateAttribute<V>)
    ensures
        attribute@.attribute.name == attribute.attribute.name@,
        attribute@.attribute.volatile == attribute.attribute.volatile,
        attribute@.attribute.namespace is Some <==> attribute.attribute.namespace is Some,
        attribute.attribute.namespace is Some ==> attribute@.attribute.namespace->0
            == attribute.attribute.namespace->0@,
        attribute.value matches TemplateAttributeValue::Static(value) ==> attribute@.value
            == TemplateAttributeValueView::Static(value.value()),
        attribute.value matches TemplateAttributeValue::Dynamic(idx) ==> attribute@.value
            == TemplateAttributeValueView::Dynamic(idx),
{
}

/// What a text segment says is its text, or the index of its text.
pub proof fn law_what_a_segment_says<Text: AsText>(segment: TextTemplateSegment<Text>)
    ensures
        segment matches TextTemplateSegment::Static(text) ==> segment@ == TextSegmentView::Static(
            text.text(),
        ),
        segment matches TextTemplateSegment::Dynamic(idx) ==> segment@ == TextSegmentView::Dynamic(
            idx,
        ),
{
}

/// What an element says is what its parts hold, position by position.
pub proof fn law_what_an_element_says<Attributes, V, Children, Listeners>(
    element: TemplateElement<Attributes, V, Children, Listeners>,
) where
    Attributes: AsSlice<TemplateAttribute<V>>,
    Children: AsSlice<TemplateNodeId>,
    Listeners: AsSlice<usize>,
    V: TemplateValue,

    ensures
        element@.tag == element.tag@,
        element@.namespace is Some <==> element.namespace is Some,
        element.namespace is Some ==> element@.namespace->0 == element.namespace->0@,
        element@.children == element.children.elements(),
        element@.listeners == element.listeners.elements(),
        element@.parent == element.parent,
        element@.attributes.len() == element.attributes.elements().len(),
        forall|i: int|
            0 <= i < element@.attributes.len() ==> (#[trigger] element@.attributes[i])
                == element.attributes.elements()[i]@,
{
}

/// What a node says is what its parts hold.
pub proof fn law_what_a_node_says<Attributes, V, Children, Listeners, TextSegments, Text>(
    node: TemplateNode<Attributes, V, Children, Listeners, TextSegments, Text>,
) where
    Attributes: AsSlice<TemplateAttribute<V>>,
    V: TemplateValue,
    Children: AsSlice<TemplateNodeId>,
    Listeners: AsSlice<usize>,
    TextSegments: AsSlice<TextTemplateSegment<Text>>,
    Text: AsText,

    ensures
        node@.id == node.id,
        node@.locally_static == node.locally_static,
        node@.fully_static == node.fully_static,
        node@.kind == node.node_type@,
        node.node_type matches TemplateNodeType::Element(element) ==> node@.kind
            == NodeKindView::Element(element@),
        node.node_type matches TemplateNodeType::Text(text) ==> {
            &&& node@.kind is Text
            &&& node@.kind->Text_0.len() == text.segments.elements().len()
            &&& forall|i: int|
                0 <= i < text.segments.elements().len() ==> (#[trigger] node@.kind->Text_0[i])
                    == text.segments.elements()[i]@
        },
        node.node_type matches TemplateNodeType::DynamicNode(idx) ==> node@.kind
            == NodeKindView::DynamicNode(idx),
{
}

/// A list of nodes says what each of them says, position by position.
pub proof fn law_what_nodes_say<Attributes, V, Children, Listeners, TextSegments, Text>(
    nodes: Seq<TemplateNode<Attributes, V, Children, Listeners, TextSegments, Text>>,
    kinds: Seq<TemplateNodeType<Attributes, V, Children, Listeners, TextSegments, Text>>,
) where
    Attributes: AsSlice<TemplateAttribute<V>>,
    V: TemplateValue,
    Children: AsSlice<TemplateNodeId>,
    Listeners: AsSlice<usize>,
    TextSegments: AsSlice<TextTemplateSegment<Text>>,
    Text: AsText,

    ensures
        node_views(nodes).len() == nodes.len(),
        forall|i: int| 0 <= i < nodes.len() ==> (#[trigger] node_views(nodes)[i]) == nodes[i]@,
        kind_views(kinds).len() == kinds.len(),
        forall|i: int| 0 <= i < kinds.len() ==> (#[trigger] kind_views(kinds)[i]) == kinds[i]@,
{
}

/// A node says that it is locally static exactly where each of its attributes is static and it has no
/// listener, or where each segment of its text is static.
pub proof fn law_locally_static_tells<Attributes, V, Children, Listeners, TextSegments, Text>(
    kind: &TemplateNodeType<Attributes, V, Children, Listeners, TextSegments, Text>,
    res: bool,
) where
    Attributes: AsSlice<TemplateAttribute<V>>,
    V: TemplateValue,
    Children: AsSlice<TemplateNodeId>,
    Listeners: AsSlice<usize>,
    TextSegments: AsSlice<TextTemplateSegment<Text>>,
    Text: AsText,

    requires
        call_ensures(
            TemplateNodeType::<Attributes, V, Children, Listeners, TextSegments, Text>::locally_static,
            (kind,),
            res,
        ),
    ensures
        kind matches TemplateNodeType::Element(element) ==> (res <==> {
            &&& element.listeners.elements().len() == 0
            &&& forall|i: int|
                0 <= i < element.attributes.elements().len() ==> (
                #[trigger] element.attributes.elements()[i]).value is Static
        }),
        kind matches TemplateNodeType::Text(text) ==> (res <==> forall|i: int|
            0 <= i < text.segments.elements().len() ==> (
            #[trigger] text.segments.elements()[i]) is Static),
        kind is DynamicNode ==> !res,
{
    law_what_is_locally_static(kind@);
    if let TemplateNodeType::Element(element) = kind {
        assert forall|i: int| 0 <= i < element.attributes.elements().len() implies (
        element@.attributes[i].value is Static) == ((
        #[trigger] element.attributes.elements()[i]).value is Static) by {}
    }
    if let TemplateNodeType::Text(text) = kind {
        let views = segment_views(text.segments.elements());
        assert forall|i: int| 0 <= i < text.segments.elements().len() implies (views[i] is Static)
            == ((#[trigger] text.segments.elements()[i]) is Static) by {}
    }
}

/// A node says that it is fully static exactly where it is locally static and each child that is in the
/// template is fully static.
pub proof fn law_fully_static_tells<Attributes, V, Children, Listeners, TextSegments, Text, Nodes>(
    kind: &TemplateNodeType<Attributes, V, Children, Listeners, TextSegments, Text>,
    nodes: &Nodes,
    res: bool,
    local: bool,
) where
    Attributes: AsSlice<TemplateAttribute<V>>,
    V: TemplateValue,
    Children: AsSlice<TemplateNodeId>,
    Listeners: AsSlice<usize>,
    TextSegments: AsSlice<TextTemplateSegment<Text>>,
    Text: AsText,
    Nodes: AsSlice<TemplateNodeType<Attributes, V, Children, Listeners, TextSegments, Text>>,

    requires
        decidable(kind_views(nodes.elements()), kind@),
        call_ensures(
            TemplateNodeType::<Attributes, V, Children, Listeners, TextSegments, Text>::locally_static,
            (kind,),
            local,
        ),
        call_ensures(
            TemplateNodeType::<Attributes, V, Children, Listeners, TextSegments, Text>::fully_static::<Nodes>,
            (kind, nodes),
            res,
        ),
    ensures
        kind matches TemplateNodeType::Element(element) ==> (res <==> local && forall|i: int|
            0 <= i < element.children.elements().len() && (
            #[trigger] element.children.elements()[i]).0 < nodes.elements().len()
                ==> fully_static(
                kind_views(nodes.elements()),
                nodes.elements()[element.children.elements()[i].0 as int]@,
            )),
        !(kind is Element) ==> res == local,
{
    let kinds = kind_views(nodes.elements());
    law_what_is_fully_static(kinds, kind@);
    law_what_is_locally_static(kind@);
    if let TemplateNodeType::Element(element) = kind {
        let view = element@;
        let children = element.children.elements();
        assert(kind@ == NodeKindView::Element(view));
        assert(view.children == children);
        assert(local == kind@.locally_static());
        assert(res == fully_static(kinds, kind@));
        assert forall|i: int|
            0 <= i < children.len() && (#[trigger] children[i]).0 < nodes.elements().len() implies kinds[
        children[i].0 as int] == nodes.elements()[children[i].0 as int]@ by {}
        assert(local <==> view.listeners.len() == 0 && forall|i: int|
            0 <= i < view.attributes.len() ==> (#[trigger] view.attributes[i]).value is Static);
    }
}

/// New elements and texts hold what they are made of.
pub proof fn law_what_new_parts_hold<Attributes, V, Children, Listeners, Segments, Text>(
    tag: &'static str,
    namespace: Option<&'static str>,
    attributes: Attributes,
    children: Children,
    listeners: Listeners,
    parent: Option<TemplateNodeId>,
    segments: Segments,
    element: TemplateElement<Attributes, V, Children, Listeners>,
    text: TextTemplate<Segments, Text>,
) where
    Attributes: AsSlice<TemplateAttribute<V>>,
    Children: AsSlice<TemplateNodeId>,
    Listeners: AsSlice<usize>,
    V: TemplateValue,
    Segments: AsSlice<TextTemplateSegment<Text>>,
    Text: AsText,

    ensures
        call_ensures(
            TemplateElement::<Attributes, V, Children, Listeners>::new,
            (tag, namespace, attributes, children, listeners, parent),
            element,
        ) ==> {
            &&& element.tag == tag
            &&& element.namespace == namespace
            &&& element.attributes == attributes
            &&& element.children == children
            &&& element.listeners == listeners
            &&& element.parent == parent
        },
        call_ensures(TextTemplate::<Segments, Text>::new, (segments,), text) ==> text.segments
            == segments,
{
}

} // verus!
