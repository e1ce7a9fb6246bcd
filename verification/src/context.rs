//! The dynamic context of one instance of a template: the values of its dynamic parts.
use vstd::prelude::*;

use crate::mutations::{Listener, ListenerView};
use crate::node::{segment_views, TextSegmentView, TextTemplateSegment};
use crate::storage::AsText;
use crate::value::{AttributeValue, AttributeValueView};

verus! {

/// The values that an instance of a template is hydrated with. The dynamic parts of the template are
/// indices into these lists. `N` is the type of the nodes outside of templates.
pub struct TemplateContext<'b, N> {
    /// The nodes that replace dynamic nodes.
    pub nodes: &'b [N],
    /// The texts of the dynamic text segments.
    pub text_segments: &'b [&'b str],
    /// The values of the dynamic attributes.
    pub attributes: &'b [AttributeValue<'b>],
    /// The listeners.
    pub listeners: Vec<Listener>,
}

/// The mathematical view of a [`TemplateContext`].
pub struct ContextView<N> {
    pub nodes: Seq<N>,
    pub text_segments: Seq<Seq<char>>,
    pub attributes: Seq<AttributeValueView>,
    pub listeners: Seq<ListenerView>,
}

impl<'b, N> View for TemplateContext<'b, N> {
    type V = ContextView<N>;

    open spec fn view(&self) -> ContextView<N> {
        ContextView {
            nodes: self.nodes@,
            text_segments: self.text_segments@.map_values(|text: &str| text@),
            attributes: self.attributes@.map_values(|value: AttributeValue| value@),
            listeners: self.listeners@.map_values(|listener: Listener| listener@),
        }
    }
}

/// The text of a list of segments, with the dynamic ones taken from `texts`.
pub open spec fn resolved_text(
    segments: Seq<TextSegmentView>,
    texts: Seq<Seq<char>>,
) -> Seq<char>
    decreases segments.len(),
{
    if segments.len() == 0 {
        Seq::empty()
    } else {
        resolved_text(segments.drop_last(), texts) + match segments.last() {
            TextSegmentView::Static(text) => text,
            TextSegmentView::Dynamic(idx) => texts[idx as int],
        }
    }
}

/// There is a text for each dynamic segment.
pub open spec fn text_resolvable(segments: Seq<TextSegmentView>, texts: Seq<Seq<char>>) -> bool {
    forall|i: int|
        0 <= i < segments.len() ==> ((#[trigger] segments[i]) matches TextSegmentView::Dynamic(
            idx,
        ) ==> idx < texts.len())
}

impl<'b, N> TemplateContext<'b, N> {
    /// The text of a list of segments, with the dynamic ones filled in.
    pub fn resolve_text<Text: AsText>(&self, segments: &[TextTemplateSegment<Text>]) -> (res:
        String)
        requires
            text_resolvable(segment_views(segments@), self@.text_segments),
        ensures
            res@ == resolved_text(segment_views(segments@), self@.text_segments),
    {
        let ghost views = segment_views(segments@);
        let ghost texts = self@.text_segments;
        let mut result: String = String::new();
        let mut i: usize = 0;
        while i < segments.len()
            invariant
                i <= segments.len(),
                views == segment_views(segments@),
                texts == self@.text_segments,
                text_resolvable(views, texts),
                result@ == resolved_text(views.take(i as int), texts),
            decreases segments.len() - i,
        {
            assert(views.take(i + 1).drop_last() =~= views.take(i as int));
            assert(views.take(i + 1).last() == views[i as int]);
            match &segments[i] {
                TextTemplateSegment::Static(text) => result.append(text.as_text()),
                TextTemplateSegment::Dynamic(idx) => {
                    assert(views[i as int] == TextSegmentView::Dynamic(*idx));
                    result.append(self.text_segments[*idx])
                },
            }
            i += 1;
        }
        assert(views.take(i as int) =~= views);
        result
    }

    /// The value of a dynamic attribute.
    pub fn resolve_attribute(&self, idx: usize) -> (res: AttributeValue<'b>)
        requires
            idx < self@.attributes.len(),
        ensures
            res@ == self@.attributes[idx as int],
    {
        self.attributes[idx]
    }

    /// A listener.
    pub fn resolve_listener(&self, idx: usize) -> (res: Listener)
        requires
            idx < self@.listeners.len(),
        ensures
            res@ == self@.listeners[idx as int],
    {
        self.listeners[idx]
    }

    /// The node that replaces a dynamic node.
    pub fn resolve_node(&self, idx: usize) -> (res: &'b N)
        requires
            idx < self@.nodes.len(),
        ensures
            *res == self@.nodes[idx as int],
    {
        &self.nodes[idx]
    }
}

/// What the context says is what its lists hold, position by position.
pub proof fn law_what_a_context_says<N>(context: TemplateContext<N>)
    ensures
        context@.nodes == context.nodes@,
        context@.text_segments.len() == context.text_segments@.len(),
        context@.attributes.len() == context.attributes@.len(),
        context@.listeners.len() == context.listeners@.len(),
        forall|i: int|
            0 <= i < context.text_segments@.len() ==> (#[trigger] context@.text_segments[i])
                == context.text_segments@[i]@,
        forall|i: int|
            0 <= i < context.attributes@.len() ==> (#[trigger] context@.attributes[i])
                == context.attributes@[i]@,
        forall|i: int|
            0 <= i < context.listeners@.len() ==> (#[trigger] context@.listeners[i]) == (
            ListenerView {
                event: context.listeners@[i].event@,
                mounted_node: context.listeners@[i].mounted_node,
            }),
{
}

/// The text of two lists of segments, one after the other, is the text of the first followed by the
/// text of the second.
pub proof fn law_texts_are_joined(
    a: Seq<TextSegmentView>,
    b: Seq<TextSegmentView>,
    texts: Seq<Seq<char>>,
)
    ensures
        resolved_text(a + b, texts) == resolved_text(a, texts) + resolved_text(b, texts),
    decreases b.len(),
{
    if b.len() == 0 {
        assert(a + b =~= a);
        assert(resolved_text(a, texts) + resolved_text(b, texts) =~= resolved_text(a, texts));
    } else {
        assert((a + b).drop_last() =~= a + b.drop_last());
        assert((a + b).last() == b.last());
        law_texts_are_joined(a, b.drop_last(), texts);
        assert(resolved_text(a + b, texts) =~= resolved_text(a, texts) + resolved_text(b, texts));
    }
}

/// A single segment shows its own text where it is static, and the text of the context that it refers
/// to where it is dynamic.
pub proof fn law_a_segment_shows_its_text(segment: TextSegmentView, texts: Seq<Seq<char>>)
    ensures
        segment matches TextSegmentView::Static(text) ==> resolved_text(seq![segment], texts)
            == text,
        segment matches TextSegmentView::Dynamic(idx) ==> resolved_text(seq![segment], texts)
            == texts[idx as int],
{
    assert(seq![segment].drop_last() =~= Seq::empty());
    assert(resolved_text(seq![segment].drop_last(), texts) =~= Seq::<char>::empty());
    assert(resolved_text(seq![segment], texts) =~= match segment {
        TextSegmentView::Static(text) => text,
        TextSegmentView::Dynamic(idx) => texts[idx as int],
    });
}

/// Every segment is shown, right after the text of the segments before it: none is left out, and
/// nothing comes in between.
pub proof fn law_every_segment_is_shown(
    segments: Seq<TextSegmentView>,
    texts: Seq<Seq<char>>,
    i: int,
)
    requires
        0 <= i < segments.len(),
    ensures
        ({
            let shown = match segments[i] {
                TextSegmentView::Static(text) => text,
                TextSegmentView::Dynamic(own) => texts[own as int],
            };
            let start = resolved_text(segments.take(i), texts).len();
            let end = resolved_text(segments.take(i + 1), texts).len();
            &&& end == start + shown.len()
            &&& end <= resolved_text(segments, texts).len()
            &&& resolved_text(segments, texts).subrange(start as int, end as int) == shown
            &&& i == 0 ==> start == 0
            &&& i == segments.len() - 1 ==> end == resolved_text(segments, texts).len()
        }),
{
    let first = segments.take(i);
    let one = seq![segments[i]];
    let rest = segments.skip(i + 1);
    assert(segments.take(i + 1) =~= first + one);
    assert(segments =~= first + one + rest);
    law_texts_are_joined(first, one, texts);
    law_texts_are_joined(first + one, rest, texts);
    law_a_segment_shows_its_text(segments[i], texts);
    let start = resolved_text(first, texts).len();
    assert(resolved_text(segments, texts).subrange(
        start as int,
        (start + resolved_text(one, texts).len()) as int,
    ) =~= resolved_text(one, texts));
    if i == 0 {
        assert(first + first =~= first);
        law_texts_are_joined(first, first, texts);
    }
    if i == segments.len() - 1 {
        assert(rest + rest =~= rest);
        law_texts_are_joined(rest, rest, texts);
    }
}

/// Only the texts that a segment refers to have an influence.
pub proof fn law_other_texts_do_not_show(
    segments: Seq<TextSegmentView>,
    a: Seq<Seq<char>>,
    b: Seq<Seq<char>>,
)
    requires
        forall|i: int|
            0 <= i < segments.len() ==> ((#[trigger] segments[i]) matches TextSegmentView::Dynamic(
                idx,
            ) ==> a[idx as int] == b[idx as int]),
    ensures
        resolved_text(segments, a) == resolved_text(segments, b),
    decreases segments.len(),
{
    if segments.len() > 0 {
        let rest = segments.drop_last();
        assert forall|i: int| 0 <= i < rest.len() implies ((
        #[trigger] rest[i]) matches TextSegmentView::Dynamic(idx) ==> a[idx as int] == b[idx as int])
            by {
            assert(rest[i] == segments[i]);
        }
        law_other_texts_do_not_show(rest, a, b);
        assert(segments.last() == segments[segments.len() - 1]);
    }
}

/// There is a text for each dynamic segment exactly where no segment refers past the end of the texts.
pub proof fn law_which_texts_can_be_resolved(
    segments: Seq<TextSegmentView>,
    texts: Seq<Seq<char>>,
)
    ensures
        !text_resolvable(segments, texts) <==> exists|i: int|
            0 <= i < segments.len() && (#[trigger] segments[i]) is Dynamic
                && segments[i]->Dynamic_0 >= texts.len(),
{
}

/// To resolve two lists of segments in one call gives what two calls give, one after the other.
pub proof fn law_resolve_text_joins<'b, N, Text: AsText>(
    context: &TemplateContext<'b, N>,
    first: &[TextTemplateSegment<Text>],
    second: &[TextTemplateSegment<Text>],
    both: &[TextTemplateSegment<Text>],
    first_text: String,
    second_text: String,
    text: String,
)
    requires
        both@ == first@ + second@,
        call_ensures(TemplateContext::<'b, N>::resolve_text::<Text>, (context, first), first_text),
        call_ensures(
            TemplateContext::<'b, N>::resolve_text::<Text>,
            (context, second),
            second_text,
        ),
        call_ensures(TemplateContext::<'b, N>::resolve_text::<Text>, (context, both), text),
    ensures
        text@ == first_text@ + second_text@,
{
    assert(segment_views(both@) =~= segment_views(first@) + segment_views(second@));
    law_texts_are_joined(segment_views(first@), segment_views(second@), context@.text_segments);
}

/// To resolve a single segment gives its own text where it is static, and the text of the context that
/// it refers to where it is dynamic. To resolve no segments gives no text.
pub proof fn law_resolve_text_of_one_segment<'b, N, Text: AsText>(
    context: &TemplateContext<'b, N>,
    segments: &[TextTemplateSegment<Text>],
    text: String,
)
    requires
        call_ensures(TemplateContext::<'b, N>::resolve_text::<Text>, (context, segments), text),
        text_resolvable(segment_views(segments@), context@.text_segments),
    ensures
        segments@.len() == 0 ==> text@.len() == 0,
        segments@.len() == 1 ==> (segments@[0] matches TextTemplateSegment::Static(own) ==> text@
            == own.text()),
        segments@.len() == 1 ==> (segments@[0] matches TextTemplateSegment::Dynamic(idx) ==> text@
            == context.text_segments@[idx as int]@),
{
    let views = segment_views(segments@);
    if segments@.len() == 1 {
        assert(views =~= seq![segments@[0]@]);
        law_a_segment_shows_its_text(segments@[0]@, context@.text_segments);
        assert(views[0] == segments@[0]@);
        if let TextTemplateSegment::Dynamic(idx) = segments@[0] {
            assert(idx < context@.text_segments.len());
        }
    }
}

/// Attributes, listeners and nodes are found by their index.
pub proof fn law_values_are_found_by_their_index<'b, N>(
    context: &TemplateContext<'b, N>,
    idx: usize,
    attribute: AttributeValue<'b>,
    listener: Listener,
    node: &'b N,
)
    ensures
        idx < context.attributes@.len() && call_ensures(
            TemplateContext::<'b, N>::resolve_attribute,
            (context, idx),
            attribute,
        ) ==> attribute@ == context.attributes@[idx as int]@,
        idx < context.listeners@.len() && call_ensures(
            TemplateContext::<'b, N>::resolve_listener,
            (context, idx),
            listener,
        ) ==> listener.event@ == context.listeners@[idx as int].event@ && listener.mounted_node
            == context.listeners@[idx as int].mounted_node,
        idx < context.nodes@.len() && call_ensures(
            TemplateContext::<'b, N>::resolve_node,
            (context, idx),
            node,
        ) ==> *node == context.nodes@[idx as int],
{
}

/// A list of segments can be resolved wherever no segment refers past the end of the texts, and a value
/// can be found wherever its index is not past the end of its list.
pub proof fn law_what_can_be_resolved<'b, N, Text: AsText>(
    context: &TemplateContext<'b, N>,
    segments: &[TextTemplateSegment<Text>],
    idx: usize,
)
    ensures
        (forall|i: int|
            0 <= i < segments@.len() && (#[trigger] segments@[i]) is Dynamic
                ==> segments@[i]->Dynamic_0 < context.text_segments@.len()) ==> call_requires(
            TemplateContext::<'b, N>::resolve_text::<Text>,
            (context, segments),
        ),
        idx < context.attributes@.len() ==> call_requires(
            TemplateContext::<'b, N>::resolve_attribute,
            (context, idx),
        ),
        idx < context.listeners@.len() ==> call_requires(
            TemplateContext::<'b, N>::resolve_listener,
            (context, idx),
        ),
        idx < context.nodes@.len() ==> call_requires(
            TemplateContext::<'b, N>::resolve_node,
            (context, idx),
        ),
{
    let views = segment_views(segments@);
    if forall|i: int|
        0 <= i < segments@.len() && (#[trigger] segments@[i]) is Dynamic
            ==> segments@[i]->Dynamic_0 < context.text_segments@.len() {
        assert forall|i: int| 0 <= i < views.len() implies ((
        #[trigger] views[i]) matches TextSegmentView::Dynamic(own) ==> own
            < context@.text_segments.len()) by {
            assert(views[i] == segments@[i]@);
        }
        assert(text_resolvable(views, context@.text_segments));
    }
}

} // verus!
