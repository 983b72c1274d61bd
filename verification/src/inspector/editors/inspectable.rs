//! The composite editor: a field that holds an object is edited by an
//! inspector of its own, nested in the inspector of the owning object.

use std::sync::Arc;
use vstd::prelude::*;
use crate::error::InspectorError;
use crate::error::lemma_errors_view;
use crate::inspector::bindings::SyncOutcome;
use crate::inspector::context::InspectorContext;
use crate::inspector::context::share_definitions;
use crate::inspector::editors::Layout;
use crate::inspector::editors::PropertyEditorBuildContext;
use crate::inspector::editors::PropertyEditorDefinition;
use crate::inspector::editors::PropertyEditorInstance;
use crate::inspector::editors::PropertyEditorMessageContext;
use crate::inspector::widget::InspectorBuilder;
use crate::message::FieldKind;
use crate::message::FieldKindView;
use crate::message::MessageDirection;
use crate::message::PropertyChanged;
use crate::message::PropertyChangedView;
use crate::message::UiMessage;
use crate::message::UiMessageData;
use crate::message::UiMessageDataView;
use crate::message::UiMessageView;
use crate::reflect::PropertyInfoView;
use crate::reflect::TypeId;
use crate::reflect::Value;
use crate::reflect::ValueView;
use crate::ui::Handle;
use crate::ui::UserInterfaceView;

verus! {

/// The definition of the composite editor for objects of one type.
#[derive(Clone, Copy, Debug, PartialEq, Eq, Structural, Hash)]
pub struct InspectablePropertyEditorDefinition {
    /// The number of the object type, as in `Object::type_id`.
    pub type_id: u64,
}

impl InspectablePropertyEditorDefinition {
    /// The composite editor for objects whose type has the number `type_id`.
    pub fn new(type_id: u64) -> (definition: Self)
        ensures
            definition.type_id == type_id,
    {
        InspectablePropertyEditorDefinition { type_id }
    }

    /// The identity of the object type whose fields the definition edits.
    pub open spec fn spec_value_type_id(&self) -> TypeId {
        TypeId::Object(self.type_id)
    }

    /// The object type whose fields the definition edits.
    #[verifier::when_used_as_spec(spec_value_type_id)]
    pub fn value_type_id(&self) -> (id: TypeId)
        ensures
            id == self.spec_value_type_id(),
    {
        TypeId::Object(self.type_id)
    }

    /// Builds the editor of a field that holds an object of this type: the
    /// bindings of that object, built through the same registry, and a
    /// nested inspector that hosts them. The inspector asks for no label of
    /// its own. A field that does not hold an object of this type is refused
    /// with a type mismatch, and nothing is built.
    pub fn create_instance(&self, ctx: PropertyEditorBuildContext<'_, '_, '_>) -> (instance: Result<
        PropertyEditorInstance,
        InspectorError,
    >)
        ensures
            match instance {
                Ok(instance) => PropertyEditorDefinition::Inspectable(*self).built(
                    ctx.property_info@,
                    ctx.definition_container@,
                    ctx.environment,
                    ctx.sync_flag,
                    old(ctx.build_context)@,
                    final(ctx.build_context)@,
                    instance@,
                ),
                Err(error) => {
                    &&& PropertyEditorDefinition::Inspectable(*self).refused(
                        ctx.property_info@,
                        error@,
                    )
                    &&& final(ctx.build_context)@ == old(ctx.build_context)@
                },
            },
        decreases ctx.property_info.value, 0nat,
    {
        let value = ctx.property_info.cast_value(self.value_type_id())?;
        match value {
            Value::Object(object) => {
                let ghost before = ctx.build_context@;
                let inspector_context = InspectorContext::from_object(
                    object,
                    ctx.build_context,
                    share_definitions(&ctx.definition_container),
                    ctx.environment,
                    ctx.sync_flag,
                );
                let ghost filled = ctx.build_context@;
                let ghost nested = inspector_context@;
                let editor = InspectorBuilder::new().with_context(inspector_context).build(
                    ctx.build_context,
                );
                proof {
                    object.lemma_view();
                    nested.lemma_inspector_built(before, filled, ctx.build_context@, editor, object@);
                }
                Ok(PropertyEditorInstance { title: String::new(), editor })
            },
            Value::Primitive(_) => vstd::pervasive::unreached(),
        }
    }

    /// What bringing the nested inspector at `instance` up to date with the
    /// field `info` asks of `ui`: the pass of the inspector's bindings over
    /// the object that the field holds, with the errors of that pass as one
    /// group; or a type mismatch where the field holds no object of this
    /// type.
    pub open spec fn outcome(
        &self,
        ui: UserInterfaceView,
        info: PropertyInfoView,
        instance: Handle,
    ) -> SyncOutcome {
        match info.value {
            ValueView::Object(inner) if inner.type_id == self.type_id => ui.context_at(
                instance,
            ).sync(ui, inner).grouped(),
            _ => SyncOutcome::single(None, Some(info.mismatch(self.spec_value_type_id()))),
        }
    }

    /// Whether the widget at `instance` can be brought up to date with
    /// `info`. Nothing is asked where the field holds no object of this
    /// type. Where it does, `instance` must be a widget of `ui` and an
    /// inspector, and the pass of its bindings over that object must find an
    /// inspector wherever it goes down in turn. Nothing is asked of where
    /// the widgets stand in the pool.
    pub open spec fn can_update(
        &self,
        ui: UserInterfaceView,
        info: PropertyInfoView,
        instance: Handle,
    ) -> bool {
        info.value matches ValueView::Object(inner) ==> (inner.type_id == self.type_id ==> {
            &&& ui.contains(instance)
            &&& ui.node(instance).widget is Inspector
            &&& ui.context_at(instance).bound_for(ui, inner)
        })
    }

    /// Brings the nested inspector at `ctx.instance` up to date with the
    /// object that the field holds. The bindings of the inspector make their
    /// own pass and send what their editors need; fields that have not
    /// changed are left alone. No message is left for the caller to send:
    /// the result is `None` when every nested field succeeded, and otherwise
    /// the group of all the nested errors. A field that holds no object of
    /// this type is a type mismatch, and nothing is sent.
    pub fn create_message(&self, ctx: PropertyEditorMessageContext<'_, '_, '_>) -> (message: Result<
        Option<UiMessage>,
        InspectorError,
    >)
        requires
            self.can_update(old(ctx.ui)@, ctx.property_info@, ctx.instance),
        ensures
            final(ctx.ui)@ == old(ctx.ui)@.send_all(
                self.outcome(old(ctx.ui)@, ctx.property_info@, ctx.instance).messages,
            ),
            match message {
                Ok(message) => {
                    &&& message.is_none()
                    &&& self.outcome(old(ctx.ui)@, ctx.property_info@, ctx.instance).errors.len()
                        == 0
                },
                Err(error) => self.outcome(old(ctx.ui)@, ctx.property_info@, ctx.instance).errors
                    == seq![error@],
            },
        decreases ctx.property_info.value, 0nat,
    {
        let ghost before = ctx.ui@;
        let cast = ctx.property_info.cast_value(self.value_type_id());
        let value = match cast {
            Ok(value) => value,
            Err(error) => {
                assert(before.send_all(Seq::empty()).messages =~= before.messages);
                return Err(error);
            },
        };
        match value {
            Value::Object(object) => {
                let inspector_context = match ctx.ui.node(ctx.instance).cast_inspector() {
                    Some(inspector) => inspector.context().clone(),
                    None => vstd::pervasive::unreached(),
                };
                proof {
                    object.lemma_view();
                }
                match inspector_context.sync(object, ctx.ui) {
                    Ok(()) => Ok(None),
                    Err(error_group) => {
                        proof {
                            lemma_errors_view(error_group);
                        }
                        Err(InspectorError::Group(error_group))
                    },
                }
            },
            Value::Primitive(_) => vstd::pervasive::unreached(),
        }
    }

    /// The change record that `message` stands for when it comes from the
    /// editor of the field `name` of the type `owner_type_id`: only a report
    /// of a nested inspector that one of its fields changed is recognised,
    /// and it becomes a change of this field that holds the nested record
    /// unchanged.
    pub open spec fn spec_translate(
        &self,
        name: Seq<char>,
        owner_type_id: TypeId,
        message: UiMessageView,
    ) -> Option<PropertyChangedView> {
        match message.data {
            UiMessageDataView::PropertyChanged(inner) if message.direction
                == MessageDirection::FromWidget => Some(
                PropertyChangedView {
                    name,
                    owner_type_id,
                    value: FieldKindView::Inspectable(Box::new(inner)),
                },
            ),
            _ => None,
        }
    }

    /// Reads a message of the nested inspector as a change of the field
    /// `name`, wrapping the nested change record.
    pub fn translate_message(&self, name: &str, owner_type_id: TypeId, message: &UiMessage) -> (change:
        Option<PropertyChanged>)
        ensures
            match change {
                Some(change) => self.spec_translate(name@, owner_type_id, message@) == Some(
                    change@,
                ),
                None => self.spec_translate(name@, owner_type_id, message@).is_none(),
            },
    {
        if message.direction() == MessageDirection::FromWidget {
            if let UiMessageData::PropertyChanged(inner) = message.data() {
                return Some(
                    PropertyChanged {
                        name: name.to_owned(),
                        owner_type_id,
                        value: FieldKind::Inspectable(Arc::new(inner.clone())),
                    },
                );
            }
        }
        None
    }

    /// The line by which the definition names itself when it is printed.
    pub fn description(&self) -> (line: String)
        ensures
            line@ == "InspectablePropertyEditorDefinition\n"@,
    {
        "InspectablePropertyEditorDefinition\n".to_owned()
    }

    /// The rows of the nested inspector are stacked.
    pub fn layout(&self) -> (layout: Layout)
        ensures
            layout == Layout::Vertical,
    {
        Layout::Vertical
    }
}

} // verus!
