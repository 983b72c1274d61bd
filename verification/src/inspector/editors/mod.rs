//! Editor definitions: what builds, updates and reads the widget of a field
//! of one type, and the registry that finds the definition of a type.

pub mod inspectable;
pub mod primitive;

use std::collections::HashMap;
use std::rc::Rc;
use vstd::prelude::*;
use crate::error::InspectorError;
use crate::error::InspectorErrorView;
use crate::inspector::bindings::SyncOutcome;
use crate::inspector::context::InspectorEnvironment;
use crate::inspector::editors::inspectable::InspectablePropertyEditorDefinition;
use crate::inspector::editors::primitive::PrimitivePropertyEditorDefinition;
use crate::message::PropertyChanged;
use crate::message::PropertyChangedView;
use crate::message::UiMessage;
use crate::message::UiMessageView;
use crate::reflect::PropertyInfo;
use crate::reflect::PropertyInfoView;
use crate::reflect::TypeId;
use crate::ui::Handle;
use crate::ui::UiNodeView;
use crate::ui::UserInterface;
use crate::ui::UserInterfaceView;
use crate::ui::WidgetView;

verus! {

broadcast use vstd::std_specs::hash::group_hash_axioms;

/// How an editor wants its rows laid out.
#[derive(Clone, Copy, Debug, PartialEq, Eq, Structural, Hash)]
pub enum Layout {
    Horizontal,
    Vertical,
}

/// What building an editor gives: the label the editor asks for, and the
/// editor widget.
#[derive(Debug, PartialEq, Eq)]
pub struct PropertyEditorInstance {
    pub title: String,
    pub editor: Handle,
}

/// The mathematical value of an editor instance.
pub struct PropertyEditorInstanceView {
    pub title: Seq<char>,
    pub editor: Handle,
}

impl View for PropertyEditorInstance {
    type V = PropertyEditorInstanceView;

    open spec fn view(&self) -> PropertyEditorInstanceView {
        PropertyEditorInstanceView { title: self.title@, editor: self.editor }
    }
}

/// What a definition is given to build the editor of one field: the
/// interface to build in, the field, and what a nested inspector inherits.
pub struct PropertyEditorBuildContext<'a, 'b, 'c> {
    pub build_context: &'a mut UserInterface,
    pub property_info: &'b PropertyInfo<'c>,
    pub environment: Option<InspectorEnvironment>,
    pub definition_container: Rc<PropertyEditorDefinitionContainer>,
    pub sync_flag: u64,
}

/// What a definition is given to bring the editor of one field up to date:
/// the field, the editor widget, and the interface the widget lives in.
pub struct PropertyEditorMessageContext<'a, 'b, 'c> {
    pub sync_flag: u64,
    pub instance: Handle,
    pub ui: &'a mut UserInterface,
    pub property_info: &'b PropertyInfo<'c>,
}

/// The editor definition of one type: a leaf editor for a primitive kind, or
/// the composite editor for an object type.
#[derive(Clone, Copy, Debug, PartialEq, Eq, Structural, Hash)]
pub enum PropertyEditorDefinition {
    Primitive(PrimitivePropertyEditorDefinition),
    Inspectable(InspectablePropertyEditorDefinition),
}

impl PropertyEditorDefinition {
    /// The type whose fields the definition edits.
    pub open spec fn spec_value_type_id(&self) -> TypeId {
        match self {
            PropertyEditorDefinition::Primitive(definition) => definition.spec_value_type_id(),
            PropertyEditorDefinition::Inspectable(definition) => definition.spec_value_type_id(),
        }
    }

    /// The type whose fields the definition edits.
    #[verifier::when_used_as_spec(spec_value_type_id)]
    pub fn value_type_id(&self) -> (id: TypeId)
        ensures
            id == self.spec_value_type_id(),
    {
        match self {
            PropertyEditorDefinition::Primitive(definition) => definition.value_type_id(),
            PropertyEditorDefinition::Inspectable(definition) => definition.value_type_id(),
        }
    }

    /// Whether `after` is `before` with the editor of the field `info`
    /// built into it as `instance`. A leaf definition adds one widget, at
    /// the next free handle: a leaf editor that shows the field's value, part
    /// of no widget yet; it asks for the field's name as label. A composite
    /// definition adds an inspector for the object that the field holds,
    /// which inherits `definitions`, `environment` and `sync_flag`; it asks
    /// for no label.
    pub open spec fn built(
        &self,
        info: PropertyInfoView,
        definitions: Map<TypeId, PropertyEditorDefinition>,
        environment: Option<InspectorEnvironment>,
        sync_flag: u64,
        before: UserInterfaceView,
        after: UserInterfaceView,
        instance: PropertyEditorInstanceView,
    ) -> bool {
        &&& info.value.type_id() == self.spec_value_type_id()
        &&& match self {
            PropertyEditorDefinition::Primitive(_) => {
                &&& instance.editor.0 == before.nodes.len()
                &&& instance.title == info.name
                &&& after == before.add(
                    UiNodeView {
                        parent: None,
                        widget: WidgetView::Editor(info.value->Primitive_0),
                    },
                )
            },
            PropertyEditorDefinition::Inspectable(_) => {
                &&& instance.title.len() == 0
                &&& after.inspects(
                    before,
                    instance.editor,
                    info.value->Object_0,
                    definitions,
                    environment,
                    sync_flag,
                )
            },
        }
    }

    /// Whether the definition refuses the field `info` with `error`: the
    /// field's value is not of the type that the definition edits, and the
    /// error names both types.
    pub open spec fn refused(&self, info: PropertyInfoView, error: InspectorErrorView) -> bool {
        &&& info.value.type_id() != self.spec_value_type_id()
        &&& error == info.mismatch(self.spec_value_type_id())
    }

    /// Builds the editor of the field `ctx.property_info` in
    /// `ctx.build_context`. The editor is built exactly when the field's
    /// value is of the type that the definition edits; otherwise the field
    /// is refused with a type mismatch and the interface is left as it was.
    pub fn create_instance(&self, ctx: PropertyEditorBuildContext<'_, '_, '_>) -> (instance: Result<
        PropertyEditorInstance,
        InspectorError,
    >)
        ensures
            match instance {
                Ok(instance) => self.built(
                    ctx.property_info@,
                    ctx.definition_container@,
                    ctx.environment,
                    ctx.sync_flag,
                    old(ctx.build_context)@,
                    final(ctx.build_context)@,
                    instance@,
                ),
                Err(error) => {
                    &&& self.refused(ctx.property_info@, error@)
                    &&& final(ctx.build_context)@ == old(ctx.build_context)@
                },
            },
        decreases ctx.property_info.value, 1nat,
    {
        match self {
            PropertyEditorDefinition::Primitive(definition) => definition.create_instance(ctx),
            PropertyEditorDefinition::Inspectable(definition) => definition.create_instance(ctx),
        }
    }

    /// What bringing the editor at `instance` up to date with the field
    /// `info` asks of `ui`. A leaf editor asks for at most one message; a
    /// nested inspector makes a pass over the object that the field holds,
    /// whose errors come back as one group; a field whose value is not of
    /// the definition's type is a type mismatch.
    pub open spec fn outcome(
        &self,
        ui: UserInterfaceView,
        info: PropertyInfoView,
        instance: Handle,
        sync_flag: u64,
    ) -> SyncOutcome {
        match self {
            PropertyEditorDefinition::Primitive(definition) => match definition.spec_message(
                ui,
                info,
                instance,
                sync_flag,
            ) {
                Ok(message) => SyncOutcome::single(message, None),
                Err(error) => SyncOutcome::single(None, Some(error)),
            },
            PropertyEditorDefinition::Inspectable(definition) => definition.outcome(
                ui,
                info,
                instance,
            ),
        }
    }

    /// Whether the editor at `instance` can be brought up to date with
    /// `info`. A leaf definition asks for nothing. A composite definition
    /// that accepts the field asks that `instance` be an inspector of `ui`,
    /// and that the pass of its bindings over the object held by the field
    /// find an inspector wherever it goes down.
    pub open spec fn can_update(
        &self,
        ui: UserInterfaceView,
        info: PropertyInfoView,
        instance: Handle,
    ) -> bool {
        self matches PropertyEditorDefinition::Inspectable(definition) ==> definition.can_update(
            ui,
            info,
            instance,
        )
    }

    /// Brings the editor at `ctx.instance` up to date with the field
    /// `ctx.property_info`. What a nested inspector has to send it sends
    /// itself; the message for a leaf editor is returned for the caller to
    /// send. Together they are the messages of `outcome`, and the error, if
    /// any, is its error.
    pub fn create_message(&self, ctx: PropertyEditorMessageContext<'_, '_, '_>) -> (message: Result<
        Option<UiMessage>,
        InspectorError,
    >)
        requires
            self.can_update(old(ctx.ui)@, ctx.property_info@, ctx.instance),
        ensures
            final(ctx.ui)@.nodes == old(ctx.ui)@.nodes,
            ({
                let outcome = self.outcome(
                    old(ctx.ui)@,
                    ctx.property_info@,
                    ctx.instance,
                    ctx.sync_flag,
                );
                match message {
                    Ok(Some(message)) => {
                        &&& outcome.errors.len() == 0
                        &&& final(ctx.ui)@.send(message@) == old(ctx.ui)@.send_all(
                            outcome.messages,
                        )
                    },
                    Ok(None) => {
                        &&& outcome.errors.len() == 0
                        &&& final(ctx.ui)@ == old(ctx.ui)@.send_all(outcome.messages)
                    },
                    Err(error) => {
                        &&& outcome.errors == seq![error@]
                        &&& final(ctx.ui)@ == old(ctx.ui)@.send_all(outcome.messages)
                    },
                }
            }),
        decreases ctx.property_info.value, 1nat,
    {
        match self {
            PropertyEditorDefinition::Primitive(definition) => {
                let ghost before = ctx.ui@;
                let message = definition.create_message(ctx);
                proof {
                    let after = final(ctx.ui)@;
                    assert(after.send_all(Seq::empty()).messages =~= after.messages);
                    if let Ok(Some(sent)) = &message {
                        assert(after.send_all(seq![sent@]).messages =~= after.send(sent@).messages);
                    }
                }
                message
            },
            PropertyEditorDefinition::Inspectable(definition) => definition.create_message(ctx),
        }
    }

    /// The change record that `message` stands for when it comes from the
    /// editor that this definition built for the field `name`.
    pub open spec fn spec_translate(
        &self,
        name: Seq<char>,
        owner_type_id: TypeId,
        message: UiMessageView,
    ) -> Option<PropertyChangedView> {
        match self {
            PropertyEditorDefinition::Primitive(definition) => definition.spec_translate(
                name,
                owner_type_id,
                message,
            ),
            PropertyEditorDefinition::Inspectable(definition) => definition.spec_translate(
                name,
                owner_type_id,
                message,
            ),
        }
    }

    /// Reads a message of the editor as a change of the field `name`.
    pub fn translate_message(&self, name: &str, owner_type_id: TypeId, message: &UiMessage) -> (change:
        Option<PropertyChanged>)
        ensures
            match change {
                Some(change) => self.spec_translate(name@, owner_type_id, message@) == Some(
                    change@,
                ),
                None => self.spec_translate(name@, owner_type_id, message@).is_none(),
            },
    {
        match self {
            PropertyEditorDefinition::Primitive(definition) => definition.translate_message(
                name,
                owner_type_id,
                message,
            ),
            PropertyEditorDefinition::Inspectable(definition) => definition.translate_message(
                name,
                owner_type_id,
                message,
            ),
        }
    }

    /// The layout the editor prefers.
    pub open spec fn spec_layout(&self) -> Layout {
        match self {
            PropertyEditorDefinition::Primitive(_) => Layout::Horizontal,
            PropertyEditorDefinition::Inspectable(_) => Layout::Vertical,
        }
    }

    /// The layout the editor prefers: a leaf editor sits beside its label, a
    /// composite editor stacks the rows of its fields.
    #[verifier::when_used_as_spec(spec_layout)]
    pub fn layout(&self) -> (layout: Layout)
        ensures
            layout == self.spec_layout(),
    {
        match self {
            PropertyEditorDefinition::Primitive(definition) => definition.layout(),
            PropertyEditorDefinition::Inspectable(definition) => definition.layout(),
        }
    }
}

/// The registry of editor definitions: at most one per type, found by the
/// identity of the type.
#[derive(Debug)]
pub struct PropertyEditorDefinitionContainer {
    definitions: HashMap<u128, PropertyEditorDefinition>,
}

impl View for PropertyEditorDefinitionContainer {
    type V = Map<TypeId, PropertyEditorDefinition>;

    closed spec fn view(&self) -> Map<TypeId, PropertyEditorDefinition> {
        Map::new(
            |id: TypeId|
                self.definitions@.contains_key(id.spec_key() as u128)
                    && self.definitions@[id.spec_key() as u128].spec_value_type_id() == id,
            |id: TypeId| self.definitions@[id.spec_key() as u128],
        )
    }
}

impl PropertyEditorDefinitionContainer {
    /// A registry without definitions.
    pub fn new() -> (container: Self)
        ensures
            container@ == Map::<TypeId, PropertyEditorDefinition>::empty(),
    {
        let container = PropertyEditorDefinitionContainer { definitions: HashMap::new() };
        assert(container@ =~= Map::<TypeId, PropertyEditorDefinition>::empty());
        container
    }

    /// Registers `definition` for the type it edits, in place of the
    /// definition that the type had, which is returned.
    pub fn insert(&mut self, definition: PropertyEditorDefinition) -> (previous: Option<
        PropertyEditorDefinition,
    >)
        ensures
            final(self)@ == old(self)@.insert(definition.spec_value_type_id(), definition),
            previous == old(self)@.get(definition.spec_value_type_id()),
    {
        let id = definition.value_type_id();
        let key = id.key();
        let replaced = self.definitions.insert(key, definition);
        proof {
            assert forall|other: TypeId| other != id implies other.spec_key() != id.spec_key() by {
                TypeId::lemma_key_injective(other, id);
            }
            assert(final(self)@ =~= old(self)@.insert(id, definition));
        }
        match replaced {
            Some(previous) => {
                if previous.value_type_id() == id {
                    Some(previous)
                } else {
                    None
                }
            },
            None => None,
        }
    }

    /// The definition registered for the type `id`, if there is one.
    pub fn get(&self, id: TypeId) -> (found: Option<PropertyEditorDefinition>)
        ensures
            found == self@.get(id),
            found matches Some(definition) ==> definition.spec_value_type_id() == id,
    {
        match self.definitions.get(&id.key()) {
            Some(definition) => {
                if definition.value_type_id() == id {
                    Some(*definition)
                } else {
                    None
                }
            },
            None => None,
        }
    }

    /// The registry keeps its order: every definition in it is filed under
    /// the type it edits, so a lookup by a type gives an editor of that type
    /// or none.
    pub proof fn law_filed_under_own_type(&self, id: TypeId)
        requires
            self@.contains_key(id),
        ensures
            self@[id].spec_value_type_id() == id,
    {
    }
}

} // verus!
