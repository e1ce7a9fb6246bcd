//! The list of changes that a renderer is asked to make.
use vstd::prelude::*;

use crate::ids::{ElementId, GlobalNodeId, RendererTemplateId, ScopeId, TemplateNodeId};
use crate::node::{AttributeDiscription, DescriptionView};
use crate::storage::optional_text;
use crate::value::{AttributeValue, AttributeValueView};

verus! {

/// An attribute as the renderer gets it.
#[derive(Clone, Copy, Debug, PartialEq)]
pub struct Attribute<'b> {
    /// The description of the attribute.
    pub attribute: AttributeDiscription,
    /// The value of the attribute.
    pub value: AttributeValue<'b>,
    /// If the value is fixed in the template.
    pub is_static: bool,
}

/// An event listener. What it calls stays with its owner.
#[derive(Clone, Copy, Debug, PartialEq)]
pub struct Listener {
    /// The name of the event that is listened to.
    pub event: &'static str,
    /// The node that the listener is mounted on.
    pub mounted_node: Option<GlobalNodeId>,
}

/// The mathematical view of a [`Listener`].
pub struct ListenerView {
    pub event: Seq<char>,
    pub mounted_node: Option<GlobalNodeId>,
}

impl View for Listener {
    type V = ListenerView;

    open spec fn view(&self) -> ListenerView {
        ListenerView { event: self.event@, mounted_node: self.mounted_node }
    }
}

/// One change. Creating a node puts it on the renderer's stack of nodes.
#[derive(Clone, Copy, Debug, PartialEq)]
pub enum DomEdit<'b> {
    /// Start to define a template.
    CreateTemplate { template: RendererTemplateId },
    /// Take `len` nodes from the stack: they are the roots of the template, which is now defined.
    FinishTemplate { len: u32 },
    /// Create an element of the template.
    CreateElementTemplate {
        tag: &'static str,
        namespace: Option<&'static str>,
        id: TemplateNodeId,
        locally_static: bool,
        fully_static: bool,
    },
    /// Create a text of the template.
    CreateTextNodeTemplate { text: &'b str, id: TemplateNodeId, locally_static: bool },
    /// Create a placeholder of the template, to be replaced in every instance.
    CreatePlaceholderTemplate { id: TemplateNodeId },
    /// Set an attribute of a node of the template.
    SetAttribute { attribute: &'b Attribute<'b>, id: TemplateNodeId },
    /// Take `count` nodes from the stack and append them to the one below.
    AppendChildren { count: usize },
    /// Let the edits that follow refer to nodes of an instance of a template.
    EnterTemplateRef { template_ref: ElementId },
    /// End what `EnterTemplateRef` started.
    ExitTemplateRef,
    /// Set the text of a node of the template.
    SetText { text: &'b str, id: TemplateNodeId },
    /// Let a listener that is mounted hear its event.
    NewEventListener { listener: Listener, scope: ScopeId },
    /// Replace a node of the template with the `created` nodes on top of the stack.
    ReplaceWith { id: TemplateNodeId, created: u32 },
}

/// The mathematical view of a [`DomEdit`].
pub enum EditView {
    CreateTemplate { template: RendererTemplateId },
    FinishTemplate { len: nat },
    CreateElementTemplate {
        tag: Seq<char>,
        namespace: Option<Seq<char>>,
        id: TemplateNodeId,
        locally_static: bool,
        fully_static: bool,
    },
    CreateTextNodeTemplate { text: Seq<char>, id: TemplateNodeId, locally_static: bool },
    CreatePlaceholderTemplate { id: TemplateNodeId },
    SetAttribute {
        attribute: DescriptionView,
        value: AttributeValueView,
        is_static: bool,
        id: TemplateNodeId,
    },
    AppendChildren { count: nat },
    EnterTemplateRef { template_ref: ElementId },
    ExitTemplateRef,
    SetText { text: Seq<char>, id: TemplateNodeId },
    NewEventListener { listener: ListenerView, scope: ScopeId },
    ReplaceWith { id: TemplateNodeId, created: nat },
}

impl<'b> View for DomEdit<'b> {
    type V = EditView;

    open spec fn view(&self) -> EditView {
        match *self {
            DomEdit::CreateTemplate { template } => EditView::CreateTemplate { template },
            DomEdit::FinishTemplate { len } => EditView::FinishTemplate { len: len as nat },
            DomEdit::CreateElementTemplate {
                tag,
                namespace,
                id,
                locally_static,
                fully_static,
            } => EditView::CreateElementTemplate {
                tag: tag@,
                namespace: optional_text(namespace),
                id,
                locally_static,
                fully_static,
            },
            DomEdit::CreateTextNodeTemplate {
                text,
                id,
                locally_static,
            } => EditView::CreateTextNodeTemplate { text: text@, id, locally_static },
            DomEdit::CreatePlaceholderTemplate { id } => EditView::CreatePlaceholderTemplate { id },
            DomEdit::SetAttribute { attribute, id } => EditView::SetAttribute {
                attribute: attribute.attribute@,
                value: attribute.value@,
                is_static: attribute.is_static,
                id,
            },
            DomEdit::AppendChildren { count } => EditView::AppendChildren { count: count as nat },
            DomEdit::EnterTemplateRef { template_ref } => EditView::EnterTemplateRef { template_ref },
            DomEdit::ExitTemplateRef => EditView::ExitTemplateRef,
            DomEdit::SetText { text, id } => EditView::SetText { text: text@, id },
            DomEdit::NewEventListener { listener, scope } => EditView::NewEventListener {
                listener: listener@,
                scope,
            },
            DomEdit::ReplaceWith { id, created } => EditView::ReplaceWith {
                id,
                created: created as nat,
            },
        }
    }
}

/// The views of a list of edits.
pub open spec fn edit_views(edits: Seq<DomEdit>) -> Seq<EditView> {
    edits.map_values(|edit: DomEdit| edit@)
}

/// The changes so far, in the order in which they are to be made.
#[derive(Clone, Debug, PartialEq)]
pub struct Mutations<'b> {
    pub edits: Vec<DomEdit<'b>>,
}

impl<'b> View for Mutations<'b> {
    type V = Seq<EditView>;

    open spec fn view(&self) -> Seq<EditView> {
        edit_views(self.edits@)
    }
}

impl<'b> Mutations<'b> {
    /// No changes.
    pub fn new() -> (res: Self)
        ensures
            res@ == Seq::<EditView>::empty(),
    {
        let res = Mutations { edits: Vec::new() };
        assert(res@ =~= Seq::<EditView>::empty());
        res
    }

    fn push(&mut self, edit: DomEdit<'b>)
        ensures
            final(self)@ == old(self)@.push(edit@),
    {
        self.edits.push(edit);
        assert(self@ =~= old(self)@.push(edit@));
    }

    /// Start to define a template.
    pub fn create_templete(&mut self, id: RendererTemplateId)
        ensures
            final(self)@ == old(self)@.push((EditView::CreateTemplate { template: id })),
    {
        self.push(DomEdit::CreateTemplate { template: id });
    }

    /// End the definition of a template that has `len` roots.
    pub fn finish_templete(&mut self, len: u32)
        ensures
            final(self)@ == old(self)@.push((EditView::FinishTemplate { len: len as nat })),
    {
        self.push(DomEdit::FinishTemplate { len });
    }

    /// Create an element of the template.
    pub fn create_element_template(
        &mut self,
        tag: &'static str,
        namespace: Option<&'static str>,
        id: TemplateNodeId,
        locally_static: bool,
        fully_static: bool,
    )
        ensures
            final(self)@ == old(self)@.push(
                (EditView::CreateElementTemplate {
                    tag: tag@,
                    namespace: optional_text(namespace),
                    id,
                    locally_static,
                    fully_static,
                }),
            ),
    {
        self.push(
            DomEdit::CreateElementTemplate { tag, namespace, id, locally_static, fully_static },
        );
    }

    /// Create a text of the template.
    pub fn create_text_node_template(
        &mut self,
        text: &'b str,
        id: TemplateNodeId,
        locally_static: bool,
    )
        ensures
            final(self)@ == old(self)@.push(
                (EditView::CreateTextNodeTemplate { text: text@, id, locally_static }),
            ),
    {
        self.push(DomEdit::CreateTextNodeTemplate { text, id, locally_static });
    }

    /// Create a placeholder of the template.
    pub fn create_placeholder_template(&mut self, id: TemplateNodeId)
        ensures
            final(self)@ == old(self)@.push((EditView::CreatePlaceholderTemplate { id })),
    {
        self.push(DomEdit::CreatePlaceholderTemplate { id });
    }

    /// Set an attribute of a node of the template.
    pub fn set_attribute(&mut self, attribute: &'b Attribute<'b>, id: TemplateNodeId)
        ensures
            final(self)@ == old(self)@.push(
                (EditView::SetAttribute {
                    attribute: attribute.attribute@,
                    value: attribute.value@,
                    is_static: attribute.is_static,
                    id,
                }),
            ),
    {
        self.push(DomEdit::SetAttribute { attribute, id });
    }

    /// Append the `count` nodes on top of the stack to the one below them.
    pub fn append_children(&mut self, count: usize)
        ensures
            final(self)@ == old(self)@.push((EditView::AppendChildren { count: count as nat })),
    {
        self.push(DomEdit::AppendChildren { count });
    }

    /// Let the edits that follow refer to nodes of an instance of a template.
    pub fn enter_template_ref(&mut self, id: ElementId)
        ensures
            final(self)@ == old(self)@.push((EditView::EnterTemplateRef { template_ref: id })),
    {
        self.push(DomEdit::EnterTemplateRef { template_ref: id });
    }

    /// End what [`Mutations::enter_template_ref`] started.
    pub fn exit_template_ref(&mut self)
        ensures
            final(self)@ == old(self)@.push(EditView::ExitTemplateRef),
    {
        self.push(DomEdit::ExitTemplateRef);
    }

    /// Set the text of a node of the template.
    pub fn set_text(&mut self, text: &'b str, id: TemplateNodeId)
        ensures
            final(self)@ == old(self)@.push((EditView::SetText { text: text@, id })),
    {
        self.push(DomEdit::SetText { text, id });
    }

    /// Let a listener that is mounted hear its event.
    pub fn new_event_listener(&mut self, listener: Listener, scope: ScopeId)
        ensures
            final(self)@ == old(self)@.push(
                (EditView::NewEventListener { listener: listener@, scope }),
            ),
    {
        self.push(DomEdit::NewEventListener { listener, scope });
    }

    /// Replace a node of the template with the `created` nodes on top of the stack.
    pub fn replace_with(&mut self, id: TemplateNodeId, created: u32)
        ensures
            final(self)@ == old(self)@.push((EditView::ReplaceWith { id, created: created as nat })),
    {
        self.push(DomEdit::ReplaceWith { id, created });
    }
}

/// What an edit says is what it holds.
pub proof fn law_what_an_edit_says(edit: DomEdit)
    ensures
        edit matches DomEdit::CreateTemplate { template } ==> edit@ == (EditView::CreateTemplate {
            template,
        }),
        edit matches DomEdit::FinishTemplate { len } ==> edit@ is FinishTemplate
            && edit@->FinishTemplate_len == len,
        edit matches DomEdit::CreateElementTemplate {
            tag,
            namespace,
            id,
            locally_static,
            fully_static,
        } ==> {
            &&& edit@ is CreateElementTemplate
            &&& edit@->tag == tag@
            &&& edit@->namespace is Some <==> namespace is Some
            &&& namespace is Some ==> edit@->namespace->0 == namespace->0@
            &&& edit@->CreateElementTemplate_id == id
            &&& edit@->CreateElementTemplate_locally_static == locally_static
            &&& edit@->fully_static == fully_static
        },
        edit matches DomEdit::CreateTextNodeTemplate { text, id, locally_static } ==> edit@ == (
        EditView::CreateTextNodeTemplate { text: text@, id, locally_static }),
        edit matches DomEdit::CreatePlaceholderTemplate { id } ==> edit@ == (
        EditView::CreatePlaceholderTemplate { id }),
        edit matches DomEdit::SetAttribute { attribute, id } ==> edit@ == (EditView::SetAttribute {
            attribute: attribute.attribute@,
            value: attribute.value@,
            is_static: attribute.is_static,
            id,
        }),
        edit matches DomEdit::AppendChildren { count } ==> edit@ is AppendChildren && edit@->count
            == count,
        edit matches DomEdit::EnterTemplateRef { template_ref } ==> edit@ == (
        EditView::EnterTemplateRef { template_ref }),
        edit is ExitTemplateRef ==> edit@ is ExitTemplateRef,
        edit matches DomEdit::SetText { text, id } ==> edit@ == (EditView::SetText {
            text: text@,
            id,
        }),
        edit matches DomEdit::NewEventListener { listener, scope } ==> edit@ == (
        EditView::NewEventListener {
            listener: ListenerView {
                event: listener.event@,
                mounted_node: listener.mounted_node,
            },
            scope,
        }),
        edit matches DomEdit::ReplaceWith { id, created } ==> edit@ is ReplaceWith
            && edit@->ReplaceWith_id == id && edit@->created == created,
{
}

/// What the changes say is what each edit says, in order.
pub proof fn law_what_changes_say(mutations: Mutations)
    ensures
        mutations@.len() == mutations.edits@.len(),
        forall|i: int|
            0 <= i < mutations.edits@.len() ==> (#[trigger] mutations@[i]) == mutations.edits@[i]@,
{
}

/// Each change is added behind those that are there, and says what was asked for. At first there are no
/// changes.
pub proof fn law_changes_are_added<'b>(
    template: RendererTemplateId,
    len: u32,
    tag: &'static str,
    namespace: Option<&'static str>,
    id: TemplateNodeId,
    locally_static: bool,
    fully_static: bool,
    text: &'b str,
    attribute: &'b Attribute<'b>,
    count: usize,
    template_ref: ElementId,
    listener: Listener,
    scope: ScopeId,
)
    ensures
        forall|mutations: Mutations<'b>| #[trigger]
            call_ensures(Mutations::<'b>::new, (), mutations) ==> mutations@.len() == 0,
        forall|mutations: &mut Mutations<'b>| #[trigger]
            call_ensures(Mutations::<'b>::create_templete, (mutations, template), ())
                ==> final(mutations)@
                == mutations@ + seq![EditView::CreateTemplate { template }],
        forall|mutations: &mut Mutations<'b>| #[trigger]
            call_ensures(Mutations::<'b>::finish_templete, (mutations, len), ())
                ==> final(mutations)@
                == mutations@ + seq![EditView::FinishTemplate { len: len as nat }],
        forall|mutations: &mut Mutations<'b>| #[trigger]
            call_ensures(Mutations::<'b>::create_element_template, (mutations, tag, namespace, id, locally_static, fully_static), ())
                ==> final(mutations)@
                == mutations@ + seq![
                    EditView::CreateElementTemplate {
                        tag: tag@,
                        namespace: match namespace {
                            Some(name) => Some(name@),
                            None => None,
                        },
                        id,
                        locally_static,
                        fully_static,
                    },
                ],
        forall|mutations: &mut Mutations<'b>| #[trigger]
            call_ensures(Mutations::<'b>::create_text_node_template, (mutations, text, id, locally_static), ())
                ==> final(mutations)@
                == mutations@ + seq![
                    EditView::CreateTextNodeTemplate { text: text@, id, locally_static },
                ],
        forall|mutations: &mut Mutations<'b>| #[trigger]
            call_ensures(Mutations::<'b>::create_placeholder_template, (mutations, id), ())
                ==> final(mutations)@
                == mutations@ + seq![EditView::CreatePlaceholderTemplate { id }],
        forall|mutations: &mut Mutations<'b>| #[trigger]
            call_ensures(Mutations::<'b>::set_attribute, (mutations, attribute, id), ())
                ==> final(mutations)@
                == mutations@ + seq![
                    EditView::SetAttribute {
                        attribute: attribute.attribute@,
                        value: attribute.value@,
                        is_static: attribute.is_static,
                        id,
                    },
                ],
        forall|mutations: &mut Mutations<'b>| #[trigger]
            call_ensures(Mutations::<'b>::append_children, (mutations, count), ())
                ==> final(mutations)@
                == mutations@ + seq![EditView::AppendChildren { count: count as nat }],
        forall|mutations: &mut Mutations<'b>| #[trigger]
            call_ensures(Mutations::<'b>::enter_template_ref, (mutations, template_ref), ())
                ==> final(mutations)@
                == mutations@ + seq![EditView::EnterTemplateRef { template_ref }],
        forall|mutations: &mut Mutations<'b>| #[trigger]
            call_ensures(Mutations::<'b>::exit_template_ref, (mutations,), ()) ==> final(mutations)@
                == mutations@ + seq![EditView::ExitTemplateRef],
        forall|mutations: &mut Mutations<'b>| #[trigger]
            call_ensures(Mutations::<'b>::set_text, (mutations, text, id), ()) ==> final(mutations)@
                == mutations@ + seq![EditView::SetText { text: text@, id }],
        forall|mutations: &mut Mutations<'b>| #[trigger]
            call_ensures(Mutations::<'b>::new_event_listener, (mutations, listener, scope), ())
                ==> final(mutations)@
                == mutations@ + seq![EditView::NewEventListener { listener: listener@, scope }],
        forall|mutations: &mut Mutations<'b>| #[trigger]
            call_ensures(Mutations::<'b>::replace_with, (mutations, id, len), ())
                ==> final(mutations)@
                == mutations@ + seq![EditView::ReplaceWith { id, created: len as nat }],
{
}

} // verus!
