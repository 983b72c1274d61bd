//! The bindings between the fields of one object and their editor widgets.

use std::rc::Rc;
use vstd::prelude::*;
use crate::error::errors_view;
use crate::error::InspectorError;
use crate::error::InspectorErrorView;
use crate::error::lemma_errors_view;
use crate::inspector::bindings::lemma_field_reads_widgets;
use crate::inspector::editors::PropertyEditorBuildContext;
use crate::inspector::editors::PropertyEditorDefinition;
use crate::inspector::editors::PropertyEditorDefinitionContainer;
use crate::inspector::editors::PropertyEditorMessageContext;
use crate::message::PropertyChanged;
use crate::message::UiMessage;
use crate::reflect::Object;
use crate::reflect::TypeId;
use crate::reflect::ValueView;
use crate::ui::Handle;
use crate::ui::UiNode;
use crate::ui::UserInterface;
use crate::ui::Widget;

verus! {

/// The surroundings an inspector was built in, handed on unchanged to every
/// inspector nested in it.
#[derive(Clone, Copy, Debug, PartialEq, Eq, Structural, Hash)]
pub struct InspectorEnvironment {
    pub id: u64,
}

/// The binding of one field: its name and owner, the widget shown for it,
/// and the definition that built that widget. Where no editor could be
/// built, the widget is a placeholder and the reason stands in place of the
/// definition.
#[derive(Debug, PartialEq, Eq)]
pub struct ContextEntry {
    pub property_name: String,
    pub property_owner_type_id: TypeId,
    pub property_editor: Handle,
    pub property_editor_definition: Result<PropertyEditorDefinition, InspectorError>,
}

/// The mathematical value of a binding.
pub struct ContextEntryView {
    pub property_name: Seq<char>,
    pub property_owner_type_id: TypeId,
    pub property_editor: Handle,
    pub property_editor_definition: Result<PropertyEditorDefinition, InspectorErrorView>,
}

impl View for ContextEntry {
    type V = ContextEntryView;

    open spec fn view(&self) -> ContextEntryView {
        ContextEntryView {
            property_name: self.property_name@,
            property_owner_type_id: self.property_owner_type_id,
            property_editor: self.property_editor,
            property_editor_definition: match self.property_editor_definition {
                Ok(definition) => Ok(definition),
                Err(error) => Err(error@),
            },
        }
    }
}

impl Clone for ContextEntry {
    fn clone(&self) -> (copy: Self)
        ensures
            copy@ == self@,
    {
        ContextEntry {
            property_name: self.property_name.clone(),
            property_owner_type_id: self.property_owner_type_id,
            property_editor: self.property_editor,
            property_editor_definition: match &self.property_editor_definition {
                Ok(definition) => Ok(*definition),
                Err(error) => Err(error.clone()),
            },
        }
    }
}

/// The state that ties the fields of one object to the widgets built for
/// them: the bindings, one per field and found by the field's name; the
/// registry and the environment the bindings were built with; and the mark
/// of the context. Every message that a pass of the context sends bears the
/// mark, and so does every report that the message leads to, which lets the
/// owner of the object tell a change that its own pass caused from a change
/// made in the interface.
#[derive(Debug)]
pub struct InspectorContext {
    pub entries: Vec<ContextEntry>,
    pub property_definitions: Rc<PropertyEditorDefinitionContainer>,
    pub environment: Option<InspectorEnvironment>,
    pub sync_flag: u64,
}

/// The mathematical value of a context.
pub struct InspectorContextView {
    pub entries: Seq<ContextEntryView>,
    pub property_definitions: Map<TypeId, PropertyEditorDefinition>,
    pub environment: Option<InspectorEnvironment>,
    pub sync_flag: u64,
}

impl View for InspectorContext {
    type V = InspectorContextView;

    open spec fn view(&self) -> InspectorContextView {
        InspectorContextView {
            entries: self.entries@.map_values(|entry: ContextEntry| entry@),
            property_definitions: (*self.property_definitions).view(),
            environment: self.environment,
            sync_flag: self.sync_flag,
        }
    }
}

/// Another handle to the registry that `definitions` refers to. This is
/// `Rc::clone` of the standard library, and its contract is taken on trust
/// from the library's documentation: the registry behind the new handle is
/// the registry behind the given one.
#[verifier::external_body]
pub(crate) fn share_definitions(definitions: &Rc<PropertyEditorDefinitionContainer>) -> (shared:
    Rc<PropertyEditorDefinitionContainer>)
    ensures
        shared == *definitions,
{
    Rc::clone(definitions)
}

/// The view of a context with the bindings `entries`.
pub open spec fn context_of(
    entries: Vec<ContextEntry>,
    definitions: Map<TypeId, PropertyEditorDefinition>,
    environment: Option<InspectorEnvironment>,
    sync_flag: u64,
) -> InspectorContextView {
    InspectorContextView {
        entries: entries@.map_values(|entry: ContextEntry| entry@),
        property_definitions: definitions,
        environment,
        sync_flag,
    }
}

impl InspectorContext {
    /// Builds the bindings of `object` in `ui`: one per field, in field
    /// order. Each field's definition is looked up in the registry by the
    /// type of the field's value and builds the field's editor; a field that
    /// holds an object is given a nested inspector, built the same way. A
    /// field without a definition, or refused by its definition, gets a
    /// placeholder and keeps the reason; the fields after it are built all
    /// the same. The interface grows at its end and sends nothing.
    pub fn from_object(
        object: &Object,
        ui: &mut UserInterface,
        definition_container: Rc<PropertyEditorDefinitionContainer>,
        environment: Option<InspectorEnvironment>,
        sync_flag: u64,
    ) -> (context: InspectorContext)
        ensures
            context@.shows(
                final(ui)@,
                None,
                object@,
                old(ui)@.nodes.len() as int,
                final(ui)@.nodes.len() as int,
            ),
            context@.property_definitions == definition_container@,
            context@.environment == environment,
            context@.sync_flag == sync_flag,
            final(ui)@.messages == old(ui)@.messages,
            old(ui)@.nodes.len() <= final(ui)@.nodes.len(),
            final(ui)@.nodes.subrange(0, old(ui)@.nodes.len() as int) == old(ui)@.nodes,
        decreases object, 0nat,
    {
        let ghost before = ui@;
        let ghost definitions = definition_container@;
        let ghost lo = ui@.nodes.len() as int;
        let infos = object.properties();
        let mut entries: Vec<ContextEntry> = Vec::new();
        let mut i: usize = 0;
        proof {
            object.lemma_view();
        }
        while i < infos.len()
            invariant
                infos.len() == object.fields.len(),
                object@.fields.len() == object.fields.len(),
                forall|j: int|
                    0 <= j < infos.len() ==> {
                        &&& (#[trigger] infos[j])@ == object@.property(j)
                        &&& *infos[j].value == object.fields[j].value
                    },
                i <= infos.len(),
                entries.len() == i,
                definitions == definition_container@,
                lo == before.nodes.len(),
                ui@.messages == before.messages,
                lo <= ui@.nodes.len(),
                forall|k: int| 0 <= k < lo ==> ui@.nodes[k] == before.nodes[k],
                i == 0 ==> ui@.nodes.len() == lo,
                i > 0 ==> entries[i - 1].property_editor.0 + 1 == ui@.nodes.len(),
                context_of(entries, definitions, environment, sync_flag).covers(
                    ui@,
                    None,
                    object@,
                    lo,
                    ui@.nodes.len() as int,
                    i as int,
                ),
            decreases infos.len() - i,
        {
            let info = &infos[i];
            let ghost previous = ui@;
            let ghost bound = context_of(entries, definitions, environment, sync_flag);
            let found = definition_container.get(info.value.type_id());
            let (editor, definition) = match found {
                Some(definition) => {
                    let built = definition.create_instance(
                        PropertyEditorBuildContext {
                            build_context: ui,
                            property_info: info,
                            environment,
                            definition_container: share_definitions(&definition_container),
                            sync_flag,
                        },
                    );
                    match built {
                        Ok(instance) => (instance.editor, Ok(definition)),
                        Err(error) => (ui.add_node(UiNode::new(Widget::Placeholder)), Err(error)),
                    }
                },
                None => (
                    ui.add_node(UiNode::new(Widget::Placeholder)),
                    Err(
                        InspectorError::MissingEditor {
                            property_name: info.name.to_owned(),
                            type_id: info.value.type_id(),
                        },
                    ),
                ),
            };
            entries.push(
                ContextEntry {
                    property_name: info.name.to_owned(),
                    property_owner_type_id: info.owner_type_id,
                    property_editor: editor,
                    property_editor_definition: definition,
                },
            );
            proof {
                let grown = context_of(entries, definitions, environment, sync_flag);
                let hi = ui@.nodes.len() as int;
                assert(forall|k: int| 0 <= k < previous.nodes.len() ==> ui@.nodes[k]
                    == ui@.nodes.subrange(0, previous.nodes.len() as int)[k]);
                bound.lemma_covers_frame(
                    grown,
                    previous,
                    ui@,
                    None,
                    object@,
                    lo,
                    previous.nodes.len() as int,
                    hi,
                    i as int,
                );
                assert(grown.entries[i as int] == entries[i as int]@);
                assert(grown.binds(ui@, None, object@, i as int, lo, hi));
                assert forall|j: int| 0 <= j < i + 1 implies {
                    &&& #[trigger] grown.binds(ui@, None, object@, j, lo, hi)
                    &&& (object@.fields[j].value matches ValueView::Object(inner) ==> (
                    grown.entries[j].property_editor_definition matches Ok(
                        PropertyEditorDefinition::Inspectable(_),
                    ) ==> ui@.context_at(grown.entries[j].property_editor).covers(
                        ui@,
                        Some(grown.entries[j].property_editor),
                        inner,
                        grown.floor(j, lo),
                        grown.entries[j].property_editor.0 as int,
                        inner.fields.len() as int,
                    )))
                } by {
                    if j < i {
                        assert(grown.binds(ui@, None, object@, j, lo, hi));
                    }
                }
            }
            i += 1;
        }
        InspectorContext {
            entries,
            property_definitions: definition_container,
            environment,
            sync_flag,
        }
    }
}

impl InspectorContext {
    /// The errors that building collected: for every field that has no
    /// editor, why it has none, in field order.
    pub fn build_errors(&self) -> (errors: Vec<InspectorError>)
        ensures
            errors_view(errors) == self@.build_errors(),
    {
        let mut errors: Vec<InspectorError> = Vec::new();
        let mut i: usize = 0;
        proof {
            lemma_errors_view(errors);
            assert(errors_view(errors) =~= self@.build_errors_upto(0));
        }
        while i < self.entries.len()
            invariant
                i <= self.entries.len(),
                errors_view(errors) == self@.build_errors_upto(i as int),
            decreases self.entries.len() - i,
        {
            let ghost previous = errors_view(errors);
            proof {
                lemma_errors_view(errors);
                assert(self@.entries[i as int] == self.entries[i as int]@);
            }
            if let Err(error) = &self.entries[i].property_editor_definition {
                errors.push(error.clone());
                proof {
                    lemma_errors_view(errors);
                    assert(errors_view(errors) =~= previous.push(error@));
                }
            }
            i += 1;
        }
        errors
    }

    /// The place of the first binding for the field `name`.
    pub fn find_entry(&self, name: &str) -> (found: Option<usize>)
        ensures
            match found {
                Some(j) => self@.find(name@) == Some(j as int) && j < self.entries.len(),
                None => self@.find(name@).is_none(),
            },
    {
        let key = name.to_owned();
        let mut i: usize = 0;
        while i < self.entries.len()
            invariant
                i <= self.entries.len(),
                key@ == name@,
                self@.find(name@) == self@.find_from(name@, i as int),
            decreases self.entries.len() - i,
        {
            if self.entries[i].property_name == key {
                return Some(i);
            }
            i += 1;
        }
        None
    }

    /// The widget shown for the field `name`, if the field has a binding.
    pub fn find_property_editor(&self, name: &str) -> (editor: Option<Handle>)
        ensures
            editor == match self@.find(name@) {
                Some(j) => Some(self@.entries[j].property_editor),
                None => None,
            },
    {
        match self.find_entry(name) {
            Some(j) => Some(self.entries[j].property_editor),
            None => None,
        }
    }

    /// Reads a message as a change of one of the fields: the message must
    /// come from the widget of a binding, and the binding's definition says
    /// what change, if any, the message stands for. The record names the
    /// binding's field and its owner.
    pub fn translate_message(&self, message: &UiMessage) -> (change: Option<PropertyChanged>)
        ensures
            match change {
                Some(change) => self@.translate(message@) == Some(change@),
                None => self@.translate(message@).is_none(),
            },
    {
        let mut i: usize = 0;
        while i < self.entries.len()
            invariant
                i <= self.entries.len(),
                self@.owner_from(message@.destination, 0) == self@.owner_from(
                    message@.destination,
                    i as int,
                ),
            decreases self.entries.len() - i,
        {
            let entry = &self.entries[i];
            if entry.property_editor == message.destination {
                assert(self@.entries[i as int] == entry@);
                return match &entry.property_editor_definition {
                    Ok(definition) => definition.translate_message(
                        entry.property_name.as_str(),
                        entry.property_owner_type_id,
                        message,
                    ),
                    Err(_) => None,
                };
            }
            i += 1;
        }
        None
    }

    /// Brings the widgets of the bindings up to date with `object`, field by
    /// field and without rebuilding anything. Every message that an editor
    /// needs is put into the queue of `ui`, marked with the mark of this
    /// context; widgets are not touched. A field that fails adds its error
    /// and the pass goes on: the result is `Ok` exactly when no field
    /// failed, and otherwise holds the errors of all failed fields in field
    /// order. Wherever the pass goes down into an object, the widget it
    /// goes down to must be an inspector: that is all that is asked of the
    /// interface.
    pub fn sync(&self, object: &Object, ui: &mut UserInterface) -> (result: Result<
        (),
        Vec<InspectorError>,
    >)
        requires
            self@.bound_for(old(ui)@, object@),
        ensures
            final(ui)@ == old(ui)@.send_all(self@.sync(old(ui)@, object@).messages),
            match result {
                Ok(()) => self@.sync(old(ui)@, object@).errors.len() == 0,
                Err(errors) => {
                    &&& errors.len() > 0
                    &&& errors_view(errors) == self@.sync(old(ui)@, object@).errors
                },
            },
        decreases object, 0nat,
    {
        let ghost before = ui@;
        let ghost total = self@.sync(before, object@);
        let infos = object.properties();
        let mut sync_errors: Vec<InspectorError> = Vec::new();
        let mut i: usize = 0;
        proof {
            object.lemma_view();
            lemma_errors_view(sync_errors);
            assert(ui@.messages + total.messages =~= before.messages + total.messages);
            assert(errors_view(sync_errors) + total.errors =~= total.errors);
        }
        while i < infos.len()
            invariant
                infos.len() == object.fields.len(),
                object@.fields.len() == object.fields.len(),
                forall|j: int|
                    0 <= j < infos.len() ==> {
                        &&& (#[trigger] infos[j])@ == object@.property(j)
                        &&& *infos[j].value == object.fields[j].value
                    },
                i <= infos.len(),
                total == self@.sync(before, object@),
                self@.bound_for(before, object@),
                ui@.nodes == before.nodes,
                ui@.messages + self@.sync_from(before, object@, i as int).messages
                    == before.messages + total.messages,
                errors_view(sync_errors) + self@.sync_from(before, object@, i as int).errors
                    == total.errors,
            decreases infos.len() - i,
        {
            let info = &infos[i];
            let ghost previous = ui@;
            let ghost previous_errors = errors_view(sync_errors);
            let ghost head = self@.field_outcome(before, info@);
            let ghost rest = self@.sync_from(before, object@, i + 1);
            proof {
                self@.lemma_sync_step(before, object@, i as int);
                lemma_errors_view(sync_errors);
            }
            match self.find_entry(info.name) {
                Some(j) => {
                    match &self.entries[j].property_editor_definition {
                        Ok(definition) => {
                            proof {
                                self@.lemma_field_outcome(before, info@, j as int);
                                self@.lemma_field_outcome(previous, info@, j as int);
                                self@.lemma_bound_reads_widgets(before, previous, object@);
                                assert(object@.fields[i as int].value == info@.value);
                                assert(self@.entries[j as int] == self.entries[j as int]@);
                                lemma_field_reads_widgets(self@, before, previous, info@);
                            }
                            let message = definition.create_message(
                                PropertyEditorMessageContext {
                                    sync_flag: self.sync_flag,
                                    instance: self.entries[j].property_editor,
                                    ui,
                                    property_info: info,
                                },
                            );
                            match message {
                                Ok(Some(message)) => {
                                    ui.send_message(message);
                                },
                                Ok(None) => {},
                                Err(error) => {
                                    sync_errors.push(error);
                                },
                            }
                        },
                        Err(error) => {
                            sync_errors.push(error.clone());
                        },
                    }
                },
                None => {
                    sync_errors.push(
                        InspectorError::MissingEditor {
                            property_name: info.name.to_owned(),
                            type_id: info.value.type_id(),
                        },
                    );
                },
            }
            proof {
                lemma_errors_view(sync_errors);
                assert(ui@.messages =~= previous.messages + head.messages);
                assert(errors_view(sync_errors) =~= previous_errors + head.errors);
                assert(ui@.messages + rest.messages =~= previous.messages + (head.messages
                    + rest.messages));
                assert(errors_view(sync_errors) + rest.errors =~= previous_errors + (head.errors
                    + rest.errors));
            }
            i += 1;
        }
        proof {
            lemma_errors_view(sync_errors);
            assert(ui@.messages =~= before.messages + total.messages);
            assert(errors_view(sync_errors) =~= total.errors);
        }
        if sync_errors.len() == 0 {
            Ok(())
        } else {
            Err(sync_errors)
        }
    }
}

impl Clone for InspectorContext {
    fn clone(&self) -> (copy: Self)
        ensures
            copy@ == self@,
    {
        let mut entries: Vec<ContextEntry> = Vec::new();
        let mut i: usize = 0;
        while i < self.entries.len()
            invariant
                i <= self.entries.len(),
                entries.len() == i,
                forall|j: int| 0 <= j < i ==> (#[trigger] entries[j])@ == self.entries[j]@,
            decreases self.entries.len() - i,
        {
            entries.push(self.entries[i].clone());
            i += 1;
        }
        let copy = InspectorContext {
            entries,
            property_definitions: share_definitions(&self.property_definitions),
            environment: self.environment,
            sync_flag: self.sync_flag,
        };
        assert(copy@.entries =~= self@.entries);
        copy
    }
}

} // verus!
