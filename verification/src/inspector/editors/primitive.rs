//! The leaf editors: one definition per primitive kind.

use vstd::prelude::*;
use crate::error::InspectorError;
use crate::error::InspectorErrorView;
use crate::inspector::editors::Layout;
use crate::inspector::editors::PropertyEditorBuildContext;
use crate::inspector::editors::PropertyEditorInstance;
use crate::inspector::editors::PropertyEditorMessageContext;
use crate::message::FieldKind;
use crate::message::FieldKindView;
use crate::message::MessageDirection;
use crate::message::PropertyChanged;
use crate::message::PropertyChangedView;
use crate::message::UiMessage;
use crate::message::UiMessageData;
use crate::message::UiMessageDataView;
use crate::message::UiMessageView;
use crate::reflect::PrimitiveKind;
use crate::reflect::PropertyInfoView;
use crate::reflect::TypeId;
use crate::reflect::Value;
use crate::reflect::ValueView;
use crate::ui::Handle;
use crate::ui::UiNode;
use crate::ui::UiNodeView;
use crate::ui::UserInterfaceView;
use crate::ui::Widget;
use crate::ui::WidgetView;

verus! {

/// The definition of the editor for leaf values of one kind.
#[derive(Clone, Copy, Debug, PartialEq, Eq, Structural, Hash)]
pub struct PrimitivePropertyEditorDefinition {
    pub kind: PrimitiveKind,
}

impl PrimitivePropertyEditorDefinition {
    /// The leaf editor for values of the kind `kind`.
    pub fn new(kind: PrimitiveKind) -> (definition: Self)
        ensures
            definition.kind == kind,
    {
        PrimitivePropertyEditorDefinition { kind }
    }

    /// The identity of the primitive type whose fields the definition edits.
    pub open spec fn spec_value_type_id(&self) -> TypeId {
        TypeId::Primitive(self.kind)
    }

    /// The primitive type whose fields the definition edits.
    #[verifier::when_used_as_spec(spec_value_type_id)]
    pub fn value_type_id(&self) -> (id: TypeId)
        ensures
            id == self.spec_value_type_id(),
    {
        TypeId::Primitive(self.kind)
    }

    /// What bringing the editor at `instance` up to date with `info` asks
    /// for: an error where the value is not of the editor's kind; no message
    /// where the editor already shows the value; else the instruction to
    /// show it, marked with `flag`.
    pub open spec fn spec_message(
        &self,
        ui: UserInterfaceView,
        info: PropertyInfoView,
        instance: Handle,
        flag: u64,
    ) -> Result<Option<UiMessageView>, InspectorErrorView> {
        match info.value {
            ValueView::Primitive(value) if value.kind() == self.kind => {
                if ui.contains(instance) && ui.node(instance).widget == WidgetView::Editor(value) {
                    Ok(None)
                } else {
                    Ok(
                        Some(
                            UiMessageView {
                                destination: instance,
                                direction: MessageDirection::ToWidget,
                                data: UiMessageDataView::Value(value),
                                flags: flag,
                            },
                        ),
                    )
                }
            },
            _ => Err(info.mismatch(self.spec_value_type_id())),
        }
    }

    /// The change record that `message` stands for when it comes from the
    /// editor of the field `name` of the type `owner_type_id`: a report of a
    /// value of the editor's kind is a change of that field to that value.
    pub open spec fn spec_translate(
        &self,
        name: Seq<char>,
        owner_type_id: TypeId,
        message: UiMessageView,
    ) -> Option<PropertyChangedView> {
        match message.data {
            UiMessageDataView::Value(value) if message.direction == MessageDirection::FromWidget
                && value.kind() == self.kind => Some(
                PropertyChangedView { name, owner_type_id, value: FieldKindView::Value(value) },
            ),
            _ => None,
        }
    }

    /// Builds the editor widget of a field: a leaf editor that shows the
    /// field's value, labelled with the field's name. A field that does not
    /// hold a value of the editor's kind is refused, and nothing is built.
    pub fn create_instance(&self, ctx: PropertyEditorBuildContext<'_, '_, '_>) -> (instance: Result<
        PropertyEditorInstance,
        InspectorError,
    >)
        ensures
            match instance {
                Ok(instance) => {
                    &&& ctx.property_info@.value matches ValueView::Primitive(value)
                    &&& value.kind() == self.kind
                    &&& instance.editor.0 == old(ctx.build_context)@.nodes.len()
                    &&& instance.title@ == ctx.property_info@.name
                    &&& final(ctx.build_context)@ == old(ctx.build_context)@.add(
                        UiNodeView { parent: None, widget: WidgetView::Editor(value) },
                    )
                },
                Err(error) => {
                    &&& ctx.property_info@.value.type_id() != self.spec_value_type_id()
                    &&& error@ == ctx.property_info@.mismatch(self.spec_value_type_id())
                    &&& final(ctx.build_context)@ == old(ctx.build_context)@
                },
            },
    {
        match ctx.property_info.cast_value(self.value_type_id()) {
            Ok(value) => {
                match value {
                    Value::Primitive(primitive) => {
                        let editor = ctx.build_context.add_node(
                            UiNode::new(Widget::Editor(primitive.clone())),
                        );
                        Ok(
                            PropertyEditorInstance {
                                title: ctx.property_info.name.to_owned(),
                                editor,
                            },
                        )
                    },
                    Value::Object(_) => vstd::pervasive::unreached(),
                }
            },
            Err(error) => Err(error),
        }
    }

    /// The message that brings the editor at `ctx.instance` up to date with
    /// the field, if one is needed.
    pub fn create_message(&self, ctx: PropertyEditorMessageContext<'_, '_, '_>) -> (message: Result<
        Option<UiMessage>,
        InspectorError,
    >)
        ensures
            final(ctx.ui)@ == old(ctx.ui)@,
            match message {
                Ok(Some(message)) => self.spec_message(
                    old(ctx.ui)@,
                    ctx.property_info@,
                    ctx.instance,
                    ctx.sync_flag,
                ) == Ok::<Option<UiMessageView>, InspectorErrorView>(Some(message@)),
                Ok(None) => self.spec_message(
                    old(ctx.ui)@,
                    ctx.property_info@,
                    ctx.instance,
                    ctx.sync_flag,
                ) == Ok::<Option<UiMessageView>, InspectorErrorView>(None),
                Err(error) => self.spec_message(
                    old(ctx.ui)@,
                    ctx.property_info@,
                    ctx.instance,
                    ctx.sync_flag,
                ) == Err::<Option<UiMessageView>, InspectorErrorView>(error@),
            },
    {
        match ctx.property_info.cast_value(self.value_type_id()) {
            Ok(value) => {
                match value {
                    Value::Primitive(primitive) => {
                        let shown = match ctx.ui.try_node(ctx.instance) {
                            Some(node) => match node.cast_editor() {
                                Some(current) => current.same_as(primitive),
                                None => false,
                            },
                            None => false,
                        };
                        if shown {
                            Ok(None)
                        } else {
                            Ok(
                                Some(
                                    UiMessage {
                                        destination: ctx.instance,
                                        direction: MessageDirection::ToWidget,
                                        data: UiMessageData::Value(primitive.clone()),
                                        flags: ctx.sync_flag,
                                    },
                                ),
                            )
                        }
                    },
                    Value::Object(_) => vstd::pervasive::unreached(),
                }
            },
            Err(error) => Err(error),
        }
    }

    /// Reads a message of the editor as a change of the field `name`.
    pub fn translate_message(&self, name: &str, owner_type_id: TypeId, message: &UiMessage) -> (change:
        Option<PropertyChanged>)
        ensures
            match change {
                Some(change) => self.spec_translate(name@, owner_type_id, message@) == Some(
                    change@,
                ),
                None => self.spec_translate(name@, owner_type_id, message@).is_none(),
            },
    {
        if message.direction() == MessageDirection::FromWidget {
            if let UiMessageData::Value(value) = message.data() {
                if value.kind() == self.kind {
                    return Some(
                        PropertyChanged {
                            name: name.to_owned(),
                            owner_type_id,
                            value: FieldKind::Value(value.clone()),
                        },
                    );
                }
            }
        }
        None
    }

    /// A leaf editor sits beside its label.
    pub fn layout(&self) -> (layout: Layout)
        ensures
            layout == Layout::Horizontal,
    {
        Layout::Horizontal
    }
}

} // verus!
