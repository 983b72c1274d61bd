//! The host user interface as far as the inspector needs it: a pool of
//! widgets reached by handle, and a queue of messages.

use std::collections::VecDeque;
use vstd::prelude::*;
use crate::inspector::context::InspectorContextView;
use crate::inspector::context::InspectorEnvironment;
use crate::inspector::editors::PropertyEditorDefinition;
use crate::inspector::widget::Inspector;
use crate::message::MessageDirection;
use crate::message::UiMessage;
use crate::message::UiMessageData;
use crate::message::UiMessageDataView;
use crate::message::UiMessageView;
use crate::reflect::ObjectView;
use crate::reflect::Primitive;
use crate::reflect::PrimitiveView;
use crate::reflect::TypeId;

verus! {

/// The place of a widget in the pool of a user interface.
#[derive(Clone, Copy, Debug, PartialEq, Eq, Structural, Hash)]
pub struct Handle(pub usize);

/// What a widget is.
#[derive(Debug)]
pub enum Widget {
    /// A leaf editor, with the value it shows.
    Editor(Primitive),
    /// An inspector, with the bindings it hosts.
    Inspector(Inspector),
    /// What stands in for the editor of a field that has none.
    Placeholder,
}

/// The mathematical value of a widget.
pub enum WidgetView {
    Editor(PrimitiveView),
    Inspector(InspectorContextView),
    Placeholder,
}

impl View for Widget {
    type V = WidgetView;

    open spec fn view(&self) -> WidgetView {
        match self {
            Widget::Editor(value) => WidgetView::Editor(value@),
            Widget::Inspector(inspector) => WidgetView::Inspector(inspector.context@),
            Widget::Placeholder => WidgetView::Placeholder,
        }
    }
}

/// A widget in the pool, with the widget it is part of.
#[derive(Debug)]
pub struct UiNode {
    pub parent: Option<Handle>,
    pub widget: Widget,
}

/// The mathematical value of a widget in the pool.
pub struct UiNodeView {
    pub parent: Option<Handle>,
    pub widget: WidgetView,
}

impl View for UiNode {
    type V = UiNodeView;

    open spec fn view(&self) -> UiNodeView {
        UiNodeView { parent: self.parent, widget: self.widget@ }
    }
}

impl UiNode {
    /// A widget that is part of no other.
    pub fn new(widget: Widget) -> (node: UiNode)
        ensures
            node@ == (UiNodeView { parent: None, widget: widget@ }),
    {
        UiNode { parent: None, widget }
    }

    /// The widget as an inspector, if it is one.
    pub fn cast_inspector(&self) -> (cast: Option<&Inspector>)
        ensures
            match cast {
                Some(inspector) => self@.widget == WidgetView::Inspector(inspector.context@),
                None => !(self@.widget is Inspector),
            },
    {
        match &self.widget {
            Widget::Inspector(inspector) => Some(inspector),
            _ => None,
        }
    }

    /// The value the widget shows, if it is a leaf editor.
    pub fn cast_editor(&self) -> (cast: Option<&Primitive>)
        ensures
            match cast {
                Some(value) => self@.widget == WidgetView::Editor(value@),
                None => !(self@.widget is Editor),
            },
    {
        match &self.widget {
            Widget::Editor(value) => Some(value),
            _ => None,
        }
    }
}

/// The widgets of a user interface and the messages that wait in it.
#[derive(Debug)]
pub struct UserInterface {
    nodes: Vec<UiNode>,
    messages: VecDeque<UiMessage>,
}

/// The mathematical value of a user interface: its widgets by handle, and its queue, head first.
pub struct UserInterfaceView {
    pub nodes: Seq<UiNodeView>,
    pub messages: Seq<UiMessageView>,
}

impl View for UserInterface {
    type V = UserInterfaceView;

    closed spec fn view(&self) -> UserInterfaceView {
        UserInterfaceView {
            nodes: self.nodes@.map_values(|node: UiNode| node@),
            messages: self.messages@.map_values(|message: UiMessage| message@),
        }
    }
}

impl UserInterfaceView {
    /// Whether `handle` is the handle of a widget of the pool.
    pub open spec fn contains(self, handle: Handle) -> bool {
        handle.0 < self.nodes.len()
    }

    /// The widget at `handle`.
    pub open spec fn node(self, handle: Handle) -> UiNodeView
        recommends
            self.contains(handle),
    {
        self.nodes[handle.0 as int]
    }

    /// The bindings hosted by the inspector at `handle`.
    pub open spec fn context_at(self, handle: Handle) -> InspectorContextView
        recommends
            self.contains(handle),
            self.node(handle).widget is Inspector,
    {
        self.node(handle).widget->Inspector_0
    }

    /// The interface with one more widget.
    pub open spec fn add(self, node: UiNodeView) -> UserInterfaceView {
        UserInterfaceView { nodes: self.nodes.push(node), ..self }
    }

    /// The interface with one more message at the end of its queue.
    pub open spec fn send(self, message: UiMessageView) -> UserInterfaceView {
        UserInterfaceView { messages: self.messages.push(message), ..self }
    }

    /// The interface with `messages` at the end of its queue, in order.
    pub open spec fn send_all(self, messages: Seq<UiMessageView>) -> UserInterfaceView {
        UserInterfaceView { messages: self.messages + messages, ..self }
    }

    /// The interface with the widgets of the bindings of `context` made part
    /// of `host`.
    pub open spec fn adopt(self, context: InspectorContextView, host: Handle) -> UserInterfaceView {
        UserInterfaceView {
            nodes: Seq::new(
                self.nodes.len(),
                |k: int|
                    if context.edits_with(Handle(k as usize), context.entries.len() as int) {
                        UiNodeView { parent: Some(host), ..self.nodes[k] }
                    } else {
                        self.nodes[k]
                    },
            ),
            ..self
        }
    }

    /// The interface with `widget` in place of the widget at `handle`.
    pub open spec fn replace(self, handle: Handle, widget: WidgetView) -> UserInterfaceView {
        UserInterfaceView {
            nodes: self.nodes.update(handle.0 as int, UiNodeView { widget, ..self.node(handle) }),
            ..self
        }
    }

    /// Whether this interface is `before` with an inspector for `object`
    /// built at its end: first the widgets of the object's fields, then, at
    /// `root`, the inspector that hosts their bindings. The inspector is
    /// part of no widget, its bindings show `object`, and it holds the
    /// registry, the environment and the mark given. Nothing was sent.
    pub open spec fn inspects(
        self,
        before: UserInterfaceView,
        root: Handle,
        object: ObjectView,
        definitions: Map<TypeId, PropertyEditorDefinition>,
        environment: Option<InspectorEnvironment>,
        sync_flag: u64,
    ) -> bool {
        &&& self.messages == before.messages
        &&& before.nodes.len() <= root.0
        &&& root.0 + 1 == self.nodes.len()
        &&& self.nodes.subrange(0, before.nodes.len() as int) == before.nodes
        &&& self.node(root).parent.is_none()
        &&& self.node(root).widget matches WidgetView::Inspector(context)
        &&& context.property_definitions == definitions
        &&& context.environment == environment
        &&& context.sync_flag == sync_flag
        &&& context.shows(self, Some(root), object, before.nodes.len() as int, root.0 as int)
    }

    /// The interface with the leaf editor at `handle` showing `value`.
    pub open spec fn show(self, handle: Handle, value: PrimitiveView) -> UserInterfaceView {
        UserInterfaceView {
            nodes: self.nodes.update(
                handle.0 as int,
                UiNodeView { widget: WidgetView::Editor(value), ..self.node(handle) },
            ),
            ..self
        }
    }

    /// Whether the instruction `message` changes the leaf editor it is
    /// addressed to: the editor shows another value of the same kind.
    pub open spec fn changes(self, message: UiMessageView) -> bool {
        &&& self.contains(message.destination)
        &&& message.direction == MessageDirection::ToWidget
        &&& message.data matches UiMessageDataView::Value(value)
        &&& self.node(message.destination).widget matches WidgetView::Editor(shown)
        &&& value.kind() == shown.kind()
        &&& value != shown
    }

    /// The report that the inspector above the sender of `message` makes of
    /// it: the sender must be part of an inspector, and one of that
    /// inspector's bindings must read the message as a change of its field.
    /// The report carries the change record and the mark of the message.
    pub open spec fn report(self, message: UiMessageView) -> Option<UiMessageView> {
        if self.contains(message.destination) && message.direction == MessageDirection::FromWidget {
            match self.node(message.destination).parent {
                Some(parent) if self.contains(parent) && self.node(parent).widget is Inspector => {
                    match self.context_at(parent).translate(message) {
                        Some(change) => Some(
                            UiMessageView {
                                destination: parent,
                                direction: MessageDirection::FromWidget,
                                data: UiMessageDataView::PropertyChanged(change),
                                flags: message.flags,
                            },
                        ),
                        None => None,
                    }
                },
                _ => None,
            }
        } else {
            None
        }
    }

    /// The interface after `message` has been delivered. An instruction
    /// that changes a leaf editor makes the editor show the new value and
    /// report it, under the same mark. A report that the inspector above its
    /// sender reads as a change makes that inspector report the change.
    /// Every other message leaves the interface as it is.
    pub open spec fn deliver(self, message: UiMessageView) -> UserInterfaceView {
        if self.changes(message) {
            self.show(message.destination, message.data->Value_0).send(message.reverse())
        } else {
            match self.report(message) {
                Some(report) => self.send(report),
                None => self,
            }
        }
    }

    /// The interface after the message at the head of its queue has been
    /// taken out and delivered; the interface itself where the queue is
    /// empty.
    pub open spec fn step(self) -> UserInterfaceView {
        if self.messages.len() == 0 {
            self
        } else {
            (UserInterfaceView { messages: self.messages.drop_first(), ..self }).deliver(
                self.messages[0],
            )
        }
    }

    /// The interface after `n` steps.
    pub open spec fn run(self, n: nat) -> UserInterfaceView
        decreases n,
    {
        if n == 0 {
            self
        } else {
            self.run((n - 1) as nat).step()
        }
    }

    /// The interface with the widget at `child` made part of `parent`.
    pub open spec fn link(self, child: Handle, parent: Handle) -> UserInterfaceView {
        UserInterfaceView {
            nodes: self.nodes.update(
                child.0 as int,
                UiNodeView { parent: Some(parent), ..self.node(child) },
            ),
            ..self
        }
    }
}

impl UserInterface {
    /// An interface without widgets or messages.
    pub fn new() -> (ui: UserInterface)
        ensures
            ui@.nodes.len() == 0,
            ui@.messages.len() == 0,
    {
        UserInterface { nodes: Vec::new(), messages: VecDeque::new() }
    }

    /// How many widgets the pool holds.
    pub fn len(&self) -> (len: usize)
        ensures
            len == self@.nodes.len(),
    {
        self.nodes.len()
    }

    /// How many messages wait in the queue.
    pub fn pending(&self) -> (pending: usize)
        ensures
            pending == self@.messages.len(),
    {
        self.messages.len()
    }

    /// Puts `node` into the pool and returns its handle, which is the next
    /// free place.
    pub fn add_node(&mut self, node: UiNode) -> (handle: Handle)
        ensures
            handle.0 == old(self)@.nodes.len(),
            final(self)@ == old(self)@.add(node@),
    {
        let handle = Handle(self.nodes.len());
        self.nodes.push(node);
        assert(final(self)@.nodes =~= old(self)@.nodes.push(node@));
        handle
    }

    /// The widget at `handle`, if the pool has one there.
    pub fn try_node(&self, handle: Handle) -> (node: Option<&UiNode>)
        ensures
            match node {
                Some(node) => self@.contains(handle) && node@ == self@.node(handle),
                None => !self@.contains(handle),
            },
    {
        if handle.0 < self.nodes.len() {
            Some(&self.nodes[handle.0])
        } else {
            None
        }
    }

    /// The widget at `handle`.
    pub fn node(&self, handle: Handle) -> (node: &UiNode)
        requires
            self@.contains(handle),
        ensures
            node@ == self@.node(handle),
    {
        &self.nodes[handle.0]
    }

    /// Puts `message` at the end of the queue.
    pub fn send_message(&mut self, message: UiMessage)
        ensures
            final(self)@ == old(self)@.send(message@),
    {
        self.messages.push_back(message);
        assert(final(self)@.messages =~= old(self)@.messages.push(message@));
    }

    /// Takes the message at the head of the queue, delivers it, and returns
    /// it; `None` where the queue is empty. Delivering may change a leaf
    /// editor and may put one new message at the end of the queue.
    pub fn poll_message(&mut self) -> (message: Option<UiMessage>)
        ensures
            final(self)@ == old(self)@.step(),
            match message {
                Some(message) => old(self)@.messages.len() > 0 && message@ == old(
                    self,
                )@.messages[0],
                None => old(self)@.messages.len() == 0,
            },
    {
        let ghost before = self@;
        let message = match self.messages.pop_front() {
            Some(message) => message,
            None => {
                return None;
            },
        };
        let ghost popped = self@;
        assert(popped.messages =~= before.messages.drop_first());
        assert(popped.nodes == before.nodes);
        let index = message.destination.0;
        if index < self.nodes.len() {
            match message.direction {
                MessageDirection::ToWidget => {
                    if let UiMessageData::Value(value) = &message.data {
                        let changed = match &self.nodes[index].widget {
                            Widget::Editor(shown) => value.kind() == shown.kind() && !value.same_as(
                                shown,
                            ),
                            _ => false,
                        };
                        if changed {
                            self.nodes[index].widget = Widget::Editor(value.clone());
                            self.messages.push_back(message.reverse());
                            assert(self@.nodes =~= popped.show(
                                message@.destination,
                                value@,
                            ).nodes);
                            assert(self@.messages =~= popped.messages.push(message@.reverse()));
                        }
                    }
                },
                MessageDirection::FromWidget => {
                    if let Some(parent) = self.nodes[index].parent {
                        if parent.0 < self.nodes.len() {
                            let change = match &self.nodes[parent.0].widget {
                                Widget::Inspector(inspector) => inspector.context.translate_message(
                                    &message,
                                ),
                                _ => None,
                            };
                            if let Some(change) = change {
                                let report = UiMessage {
                                    destination: parent,
                                    direction: MessageDirection::FromWidget,
                                    data: UiMessageData::PropertyChanged(change),
                                    flags: message.flags,
                                };
                                self.messages.push_back(report);
                                assert(self@.messages =~= popped.messages.push(report@));
                            }
                        }
                    }
                },
            }
        }
        Some(message)
    }

    /// Puts `widget` in the place of the widget at `handle`.
    pub fn replace_widget(&mut self, handle: Handle, widget: Widget)
        requires
            old(self)@.contains(handle),
        ensures
            final(self)@ == old(self)@.replace(handle, widget@),
    {
        self.nodes[handle.0].widget = widget;
        assert(final(self)@.nodes =~= old(self)@.replace(handle, widget@).nodes);
    }

    /// Makes the widget at `child` part of the widget at `parent`.
    pub fn link(&mut self, child: Handle, parent: Handle)
        requires
            old(self)@.contains(child),
        ensures
            final(self)@ == old(self)@.link(child, parent),
    {
        self.nodes[child.0].parent = Some(parent);
        assert(final(self)@.nodes =~= old(self)@.link(child, parent).nodes);
    }
}

} // verus!
