//! Messages of the user interface, and the change records that inspectors
//! hand to the owner of an object.

use std::sync::Arc;
use vstd::prelude::*;
use crate::reflect::Primitive;
use crate::reflect::PrimitiveView;
use crate::reflect::TypeId;
use crate::ui::Handle;

verus! {

/// Whether a message is an instruction to a widget or a report from it.
#[derive(Clone, Copy, Debug, PartialEq, Eq, Structural, Hash)]
pub enum MessageDirection {
    ToWidget,
    FromWidget,
}

impl MessageDirection {
    /// The other direction.
    pub open spec fn spec_reverse(self) -> MessageDirection {
        match self {
            MessageDirection::ToWidget => MessageDirection::FromWidget,
            MessageDirection::FromWidget => MessageDirection::ToWidget,
        }
    }

    /// The other direction.
    #[verifier::when_used_as_spec(spec_reverse)]
    pub fn reverse(self) -> (reversed: MessageDirection)
        ensures
            reversed == self.spec_reverse(),
    {
        match self {
            MessageDirection::ToWidget => MessageDirection::FromWidget,
            MessageDirection::FromWidget => MessageDirection::ToWidget,
        }
    }
}

/// The new content of a changed field: a leaf value, or the change record of
/// a field of the object that the field holds.
#[derive(Debug, PartialEq, Eq)]
pub enum FieldKind {
    Value(Primitive),
    Inspectable(Arc<PropertyChanged>),
}

/// A change record: which field of which type changed, and to what.
#[derive(Debug, PartialEq, Eq)]
pub struct PropertyChanged {
    pub name: String,
    pub owner_type_id: TypeId,
    pub value: FieldKind,
}

/// The mathematical value of the new content of a field.
pub enum FieldKindView {
    Value(PrimitiveView),
    Inspectable(Box<PropertyChangedView>),
}

/// The mathematical value of a change record.
pub struct PropertyChangedView {
    pub name: Seq<char>,
    pub owner_type_id: TypeId,
    pub value: FieldKindView,
}

/// The mathematical value of a change record.
pub open spec fn change_view(change: PropertyChanged) -> PropertyChangedView
    decreases change,
{
    PropertyChangedView {
        name: change.name@,
        owner_type_id: change.owner_type_id,
        value: match change.value {
            FieldKind::Value(p) => FieldKindView::Value(p@),
            FieldKind::Inspectable(inner) => FieldKindView::Inspectable(
                Box::new(change_view(*inner)),
            ),
        },
    }
}

impl View for PropertyChanged {
    type V = PropertyChangedView;

    open spec fn view(&self) -> PropertyChangedView {
        change_view(*self)
    }
}

impl View for FieldKind {
    type V = FieldKindView;

    open spec fn view(&self) -> FieldKindView {
        match self {
            FieldKind::Value(p) => FieldKindView::Value(p@),
            FieldKind::Inspectable(inner) => FieldKindView::Inspectable(
                Box::new(change_view(**inner)),
            ),
        }
    }
}

impl PropertyChangedView {
    /// How many enclosing objects the record names above the changed leaf.
    pub open spec fn depth(self) -> nat
        decreases self,
    {
        match self.value {
            FieldKindView::Value(_) => 0,
            FieldKindView::Inspectable(inner) => 1 + inner.depth(),
        }
    }

    /// The leaf value that the record carries at its innermost level.
    pub open spec fn innermost(self) -> PrimitiveView
        decreases self,
    {
        match self.value {
            FieldKindView::Value(p) => p,
            FieldKindView::Inspectable(inner) => inner.innermost(),
        }
    }
}

impl Clone for PropertyChanged {
    fn clone(&self) -> (copy: Self)
        ensures
            copy@ == self@,
        decreases self,
    {
        let value = match &self.value {
            FieldKind::Value(p) => FieldKind::Value(p.clone()),
            FieldKind::Inspectable(inner) => FieldKind::Inspectable(Arc::new((**inner).clone())),
        };
        PropertyChanged { name: self.name.clone(), owner_type_id: self.owner_type_id, value }
    }
}

/// What a message carries.
#[derive(Debug, PartialEq, Eq)]
pub enum UiMessageData {
    /// The value of a leaf editor: to the widget, the value it shall show;
    /// from the widget, the value it now shows.
    Value(Primitive),
    /// From an inspector: one of its fields has changed.
    PropertyChanged(PropertyChanged),
}

/// The mathematical value of what a message carries.
pub enum UiMessageDataView {
    Value(PrimitiveView),
    PropertyChanged(PropertyChangedView),
}

impl View for UiMessageData {
    type V = UiMessageDataView;

    open spec fn view(&self) -> UiMessageDataView {
        match self {
            UiMessageData::Value(p) => UiMessageDataView::Value(p@),
            UiMessageData::PropertyChanged(change) => UiMessageDataView::PropertyChanged(change@),
        }
    }
}

impl Clone for UiMessageData {
    fn clone(&self) -> (copy: Self)
        ensures
            copy@ == self@,
    {
        match self {
            UiMessageData::Value(p) => UiMessageData::Value(p.clone()),
            UiMessageData::PropertyChanged(change) => UiMessageData::PropertyChanged(
                change.clone(),
            ),
        }
    }
}

/// A message addressed to, or sent by, the widget `destination`.
#[derive(Debug, PartialEq, Eq)]
pub struct UiMessage {
    pub destination: Handle,
    pub direction: MessageDirection,
    pub data: UiMessageData,
    /// The mark of the pass that caused the message; 0 where none did.
    pub flags: u64,
}

/// The mathematical value of a message.
pub struct UiMessageView {
    pub destination: Handle,
    pub direction: MessageDirection,
    pub data: UiMessageDataView,
    pub flags: u64,
}

impl View for UiMessage {
    type V = UiMessageView;

    open spec fn view(&self) -> UiMessageView {
        UiMessageView {
            destination: self.destination,
            direction: self.direction,
            data: self.data@,
            flags: self.flags,
        }
    }
}

impl UiMessageView {
    /// The same message travelling the other way.
    pub open spec fn reverse(self) -> UiMessageView {
        UiMessageView { direction: self.direction.spec_reverse(), ..self }
    }
}

impl Clone for UiMessage {
    fn clone(&self) -> (copy: Self)
        ensures
            copy@ == self@,
    {
        UiMessage {
            destination: self.destination,
            direction: self.direction,
            data: self.data.clone(),
            flags: self.flags,
        }
    }
}

impl UiMessage {
    /// An instruction to the leaf editor `destination` to show `value`.
    pub fn value(destination: Handle, direction: MessageDirection, value: Primitive) -> (message:
        UiMessage)
        ensures
            message@ == (UiMessageView {
                destination,
                direction,
                data: UiMessageDataView::Value(value@),
                flags: 0,
            }),
    {
        UiMessage { destination, direction, data: UiMessageData::Value(value), flags: 0 }
    }

    /// The report of the inspector `destination` that one of its fields changed.
    pub fn property_changed(
        destination: Handle,
        direction: MessageDirection,
        change: PropertyChanged,
    ) -> (message: UiMessage)
        ensures
            message@ == (UiMessageView {
                destination,
                direction,
                data: UiMessageDataView::PropertyChanged(change@),
                flags: 0,
            }),
    {
        UiMessage {
            destination,
            direction,
            data: UiMessageData::PropertyChanged(change),
            flags: 0,
        }
    }

    /// The widget the message is addressed to, or comes from.
    pub fn destination(&self) -> (destination: Handle)
        ensures
            destination == self@.destination,
    {
        self.destination
    }

    /// Whether the message goes to the widget or comes from it.
    pub fn direction(&self) -> (direction: MessageDirection)
        ensures
            direction == self@.direction,
    {
        self.direction
    }

    /// What the message carries.
    pub fn data(&self) -> (data: &UiMessageData)
        ensures
            data@ == self@.data,
    {
        &self.data
    }

    /// A copy of the message that travels the other way.
    pub fn reverse(&self) -> (reversed: UiMessage)
        ensures
            reversed@ == self@.reverse(),
    {
        UiMessage {
            destination: self.destination,
            direction: self.direction.reverse(),
            data: self.data.clone(),
            flags: self.flags,
        }
    }
}

} // verus!
