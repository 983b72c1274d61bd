//! What bindings mean: when they show an object, what a pass over an object
//! asks of the interface, and how a message of a widget is read.

use vstd::prelude::*;
use crate::error::InspectorErrorView;
use crate::inspector::context::InspectorContextView;
use crate::inspector::editors::PropertyEditorDefinition;
use crate::message::PropertyChangedView;
use crate::message::UiMessageView;
use crate::reflect::ObjectView;
use crate::reflect::PropertyInfoView;
use crate::reflect::TypeId;
use crate::reflect::ValueView;
use crate::ui::Handle;
use crate::ui::UiNodeView;
use crate::ui::UserInterfaceView;
use crate::ui::WidgetView;

verus! {

/// What one pass over the fields of an object asks of the interface: the
/// messages it sends, in order, and the errors of the fields that failed.
pub struct SyncOutcome {
    pub messages: Seq<UiMessageView>,
    pub errors: Seq<InspectorErrorView>,
}

impl SyncOutcome {
    /// The outcome of a pass over no field.
    pub open spec fn empty() -> SyncOutcome {
        SyncOutcome { messages: Seq::empty(), errors: Seq::empty() }
    }

    /// The outcome of one field that sends `message`, if any, and fails with
    /// `error`, if any.
    pub open spec fn single(
        message: Option<UiMessageView>,
        error: Option<InspectorErrorView>,
    ) -> SyncOutcome {
        SyncOutcome {
            messages: match message {
                Some(message) => seq![message],
                None => Seq::empty(),
            },
            errors: match error {
                Some(error) => seq![error],
                None => Seq::empty(),
            },
        }
    }

    /// This outcome followed by `next`.
    pub open spec fn followed_by(self, next: SyncOutcome) -> SyncOutcome {
        SyncOutcome { messages: self.messages + next.messages, errors: self.errors + next.errors }
    }

    /// The outcome of a field whose editor is a nested inspector, given the
    /// outcome of the nested pass: the nested messages, and the nested
    /// errors as one group.
    pub open spec fn grouped(self) -> SyncOutcome {
        SyncOutcome {
            messages: self.messages,
            errors: if self.errors.len() == 0 {
                Seq::empty()
            } else {
                seq![InspectorErrorView::Group(self.errors)]
            },
        }
    }
}

/// The definition that edits the field `info` under the registry
/// `definitions`, or the reason why the field has none.
pub open spec fn resolve(
    definitions: Map<TypeId, PropertyEditorDefinition>,
    info: PropertyInfoView,
) -> Result<PropertyEditorDefinition, InspectorErrorView> {
    let id = info.value.type_id();
    if !definitions.contains_key(id) {
        Err(InspectorErrorView::MissingEditor { property_name: info.name, type_id: id })
    } else if definitions[id].spec_value_type_id() != id {
        Err(info.mismatch(definitions[id].spec_value_type_id()))
    } else {
        Ok(definitions[id])
    }
}

impl InspectorContextView {
    /// The first binding at or after `from` that is for the field `name`.
    pub open spec fn find_from(self, name: Seq<char>, from: int) -> Option<int>
        decreases self.entries.len() - from,
    {
        if from < 0 || from >= self.entries.len() {
            None
        } else if self.entries[from].property_name == name {
            Some(from)
        } else {
            self.find_from(name, from + 1)
        }
    }

    /// The first binding for the field `name`.
    pub open spec fn find(self, name: Seq<char>) -> Option<int> {
        self.find_from(name, 0)
    }

    /// The first binding at or after `from` whose widget is `editor`.
    pub open spec fn owner_from(self, editor: Handle, from: int) -> Option<int>
        decreases self.entries.len() - from,
    {
        if from < 0 || from >= self.entries.len() {
            None
        } else if self.entries[from].property_editor == editor {
            Some(from)
        } else {
            self.owner_from(editor, from + 1)
        }
    }

    /// The change record that `message` stands for: the message must come
    /// from the widget of one of the bindings, and is read by the definition
    /// of the first such binding, under the name and owner of its field.
    pub open spec fn translate(self, message: UiMessageView) -> Option<PropertyChangedView> {
        match self.owner_from(message.destination, 0) {
            Some(i) => match self.entries[i].property_editor_definition {
                Ok(definition) => definition.spec_translate(
                    self.entries[i].property_name,
                    self.entries[i].property_owner_type_id,
                    message,
                ),
                Err(_) => None,
            },
            None => None,
        }
    }

    /// The lowest handle that the widgets of binding `i` may have, when the
    /// widgets of the bindings start at `lo`: the handle after the widget of
    /// the binding before.
    pub open spec fn floor(self, i: int, lo: int) -> int {
        if i <= 0 {
            lo
        } else {
            self.entries[i - 1].property_editor.0 + 1
        }
    }

    /// Whether binding `i` is the binding of field `i` of `object`: it has
    /// the field's name and owner and the definition that the registry gives
    /// the field; its widget is part of `host`; and the widget is what the
    /// definition builds. That is a leaf editor that shows the field's value,
    /// at the first handle of the binding's range; or an inspector with one
    /// binding per field of the object that the field holds, which inherits
    /// what this context was built with and comes right after the widgets of
    /// its own bindings; or, where there is no definition, a placeholder at
    /// the first handle of the range.
    pub open spec fn binds(
        self,
        ui: UserInterfaceView,
        host: Option<Handle>,
        object: ObjectView,
        i: int,
        lo: int,
        hi: int,
    ) -> bool {
        let entry = self.entries[i];
        let node = ui.node(entry.property_editor);
        &&& entry.property_name == object.fields[i].name
        &&& entry.property_owner_type_id == object.identity()
        &&& entry.property_editor_definition == resolve(
            self.property_definitions,
            object.property(i),
        )
        &&& self.floor(i, lo) <= entry.property_editor.0 < hi
        &&& node.parent == host
        &&& match entry.property_editor_definition {
            Ok(PropertyEditorDefinition::Primitive(_)) => {
                &&& entry.property_editor.0 == self.floor(i, lo)
                &&& object.fields[i].value matches ValueView::Primitive(value)
                &&& node.widget == WidgetView::Editor(value)
            },
            Ok(PropertyEditorDefinition::Inspectable(_)) => {
                &&& object.fields[i].value matches ValueView::Object(inner)
                &&& node.widget matches WidgetView::Inspector(nested)
                &&& nested.entries.len() == inner.fields.len()
                &&& nested.floor(nested.entries.len() as int, self.floor(i, lo))
                    == entry.property_editor.0
                &&& nested.property_definitions == self.property_definitions
                &&& nested.environment == self.environment
                &&& nested.sync_flag == self.sync_flag
            },
            Err(_) => {
                &&& entry.property_editor.0 == self.floor(i, lo)
                &&& node.widget is Placeholder
            },
        }
    }

    /// Whether the first `n` bindings are those of the first `n` fields of
    /// `object`, shown in `ui` by widgets with handles from `lo` up to `hi`,
    /// each part of `host`: in field order and in rising order of handles,
    /// and for every field with a composite editor the nested inspector
    /// shows the object that the field holds, in the handles between the
    /// widget of the field before and its own.
    pub open spec fn covers(
        self,
        ui: UserInterfaceView,
        host: Option<Handle>,
        object: ObjectView,
        lo: int,
        hi: int,
        n: int,
    ) -> bool
        decreases object,
    {
        &&& 0 <= lo
        &&& hi <= ui.nodes.len()
        &&& n <= self.entries.len()
        &&& n <= object.fields.len()
        &&& forall|i: int|
            0 <= i < n ==> {
                &&& #[trigger] self.binds(ui, host, object, i, lo, hi)
                &&& (object.fields[i].value matches ValueView::Object(inner) ==> (
                self.entries[i].property_editor_definition matches Ok(
                    PropertyEditorDefinition::Inspectable(_),
                ) ==> ui.context_at(self.entries[i].property_editor).covers(
                    ui,
                    Some(self.entries[i].property_editor),
                    inner,
                    self.floor(i, lo),
                    self.entries[i].property_editor.0 as int,
                    inner.fields.len() as int,
                )))
            }
    }

    /// Whether the bindings are those of `object`, one per field, shown in
    /// `ui` by widgets that take up the handles from `lo` up to `hi`, each
    /// part of `host`.
    pub open spec fn shows(
        self,
        ui: UserInterfaceView,
        host: Option<Handle>,
        object: ObjectView,
        lo: int,
        hi: int,
    ) -> bool {
        &&& self.entries.len() == object.fields.len()
        &&& self.floor(self.entries.len() as int, lo) == hi
        &&& self.covers(ui, host, object, lo, hi, object.fields.len() as int)
    }

    /// Whether the widget at `handle` is the widget of one of the first
    /// `upto` bindings.
    pub open spec fn edits_with(self, handle: Handle, upto: int) -> bool {
        exists|i: int|
            0 <= i < upto && i < self.entries.len() && (#[trigger] self.entries[i]).property_editor
                == handle
    }

    /// The reasons of the first `n` bindings that have no editor, in order.
    pub open spec fn build_errors_upto(self, n: int) -> Seq<InspectorErrorView>
        decreases n,
    {
        if n <= 0 {
            Seq::empty()
        } else {
            match self.entries[n - 1].property_editor_definition {
                Ok(_) => self.build_errors_upto(n - 1),
                Err(error) => self.build_errors_upto(n - 1).push(error),
            }
        }
    }

    /// The reasons of the bindings that have no editor, in order.
    pub open spec fn build_errors(self) -> Seq<InspectorErrorView> {
        self.build_errors_upto(self.entries.len() as int)
    }

    /// The nested inspector that edits the field `info`: the widget of the
    /// field's binding, where the binding has a composite editor for the
    /// type of the object that the field holds.
    pub open spec fn nested_editor(self, info: PropertyInfoView) -> Option<Handle> {
        match self.find(info.name) {
            Some(j) => match self.entries[j].property_editor_definition {
                Ok(PropertyEditorDefinition::Inspectable(definition)) => {
                    if info.value.type_id() == definition.spec_value_type_id() {
                        Some(self.entries[j].property_editor)
                    } else {
                        None
                    }
                },
                _ => None,
            },
            None => None,
        }
    }

    /// The outcome of a field that no nested inspector edits.
    pub open spec fn flat_outcome(self, ui: UserInterfaceView, info: PropertyInfoView) -> SyncOutcome {
        match self.find(info.name) {
            Some(j) => match self.entries[j].property_editor_definition {
                Ok(PropertyEditorDefinition::Primitive(definition)) => {
                    match definition.spec_message(
                        ui,
                        info,
                        self.entries[j].property_editor,
                        self.sync_flag,
                    ) {
                        Ok(message) => SyncOutcome::single(message, None),
                        Err(error) => SyncOutcome::single(None, Some(error)),
                    }
                },
                Ok(PropertyEditorDefinition::Inspectable(definition)) => SyncOutcome::single(
                    None,
                    Some(info.mismatch(definition.spec_value_type_id())),
                ),
                Err(error) => SyncOutcome::single(None, Some(error)),
            },
            None => SyncOutcome::single(
                None,
                Some(
                    InspectorErrorView::MissingEditor {
                        property_name: info.name,
                        type_id: info.value.type_id(),
                    },
                ),
            ),
        }
    }

    /// Whether a pass over `object` finds an inspector wherever it goes
    /// down: for every field of `object` that a nested inspector edits, the
    /// widget of the field's binding is an inspector of `ui`, and the same
    /// holds of that inspector's bindings and the object that the field
    /// holds.
    pub open spec fn bound_for(self, ui: UserInterfaceView, object: ObjectView) -> bool
        decreases object,
    {
        forall|i: int|
            0 <= i < object.fields.len() ==> ((#[trigger] object.fields[i]).value matches ValueView::Object(
                inner,
            ) ==> (self.nested_editor(object.property(i)) matches Some(editor) ==> {
                &&& ui.contains(editor)
                &&& ui.node(editor).widget is Inspector
                &&& ui.context_at(editor).bound_for(ui, inner)
            }))
    }

    /// What the pass over the fields of `object` from field `i` on asks of
    /// `ui`. A field is looked up among the bindings by its name. A field
    /// without a binding, or whose binding has no editor, fails with the
    /// reason; a field whose value is not of its editor's type fails with a
    /// type mismatch; a leaf editor is sent the value unless it shows it; a
    /// nested inspector makes its own pass over the object the field holds.
    /// No field's failure keeps the pass from the fields after it.
    pub open spec fn sync_from(self, ui: UserInterfaceView, object: ObjectView, i: int) -> SyncOutcome
        decreases object, object.fields.len() - i,
    {
        if i < 0 || i >= object.fields.len() {
            SyncOutcome::empty()
        } else {
            let rest = self.sync_from(ui, object, i + 1);
            match object.fields[i].value {
                ValueView::Object(inner) if self.nested_editor(object.property(i)).is_some() => {
                    ui.context_at(self.nested_editor(object.property(i)).unwrap()).sync_from(
                        ui,
                        inner,
                        0,
                    ).grouped().followed_by(rest)
                },
                _ => self.flat_outcome(ui, object.property(i)).followed_by(rest),
            }
        }
    }

    /// What the pass over all fields of `object` asks of `ui`.
    pub open spec fn sync(self, ui: UserInterfaceView, object: ObjectView) -> SyncOutcome {
        self.sync_from(ui, object, 0)
    }

    /// The outcome of field `info` alone.
    pub open spec fn field_outcome(self, ui: UserInterfaceView, info: PropertyInfoView) -> SyncOutcome {
        match info.value {
            ValueView::Object(inner) if self.nested_editor(info).is_some() => ui.context_at(
                self.nested_editor(info).unwrap(),
            ).sync_from(ui, inner, 0).grouped(),
            _ => self.flat_outcome(ui, info),
        }
    }
}

impl InspectorContextView {
    /// The bindings that are shown lie above `lo`, each in its own range.
    pub proof fn lemma_floor(
        self,
        ui: UserInterfaceView,
        host: Option<Handle>,
        object: ObjectView,
        lo: int,
        hi: int,
        n: int,
        i: int,
    )
        requires
            self.covers(ui, host, object, lo, hi, n),
            0 <= i < n,
        ensures
            lo <= self.floor(i, lo) <= self.entries[i].property_editor.0 < hi,
        decreases i,
    {
        assert(self.binds(ui, host, object, i, lo, hi));
        if i > 0 {
            self.lemma_floor(ui, host, object, lo, hi, n, i - 1);
        }
    }

    /// The widgets of the bindings that are shown have rising handles.
    pub proof fn lemma_rising(
        self,
        ui: UserInterfaceView,
        host: Option<Handle>,
        object: ObjectView,
        lo: int,
        hi: int,
        n: int,
        i: int,
        j: int,
    )
        requires
            self.covers(ui, host, object, lo, hi, n),
            0 <= i < j < n,
        ensures
            self.entries[i].property_editor.0 < self.floor(j, lo),
        decreases j,
    {
        assert(self.binds(ui, host, object, j - 1, lo, hi));
        if i < j - 1 {
            self.lemma_rising(ui, host, object, lo, hi, n, i, j - 1);
        }
    }

    /// What is shown stays shown when the interface changes outside the
    /// handles from `lo` up to `hi`, and when bindings are added after the
    /// first `n`.
    pub proof fn lemma_covers_frame(
        self,
        other: InspectorContextView,
        ui: UserInterfaceView,
        changed: UserInterfaceView,
        host: Option<Handle>,
        object: ObjectView,
        lo: int,
        hi: int,
        wider: int,
        n: int,
    )
        requires
            self.covers(ui, host, object, lo, hi, n),
            n <= other.entries.len(),
            forall|i: int| 0 <= i < n ==> other.entries[i] == self.entries[i],
            other.property_definitions == self.property_definitions,
            other.environment == self.environment,
            other.sync_flag == self.sync_flag,
            hi <= wider <= changed.nodes.len(),
            forall|k: int| lo <= k < hi ==> changed.nodes[k] == ui.nodes[k],
        ensures
            other.covers(changed, host, object, lo, wider, n),
        decreases object,
    {
        assert forall|i: int| 0 <= i < n implies {
            &&& #[trigger] other.binds(changed, host, object, i, lo, wider)
            &&& (object.fields[i].value matches ValueView::Object(inner) ==> (
            other.entries[i].property_editor_definition matches Ok(
                PropertyEditorDefinition::Inspectable(_),
            ) ==> changed.context_at(other.entries[i].property_editor).covers(
                changed,
                Some(other.entries[i].property_editor),
                inner,
                other.floor(i, lo),
                other.entries[i].property_editor.0 as int,
                inner.fields.len() as int,
            )))
        } by {
            assert(self.binds(ui, host, object, i, lo, hi));
            self.lemma_floor(ui, host, object, lo, hi, n, i);
            if i > 0 {
                assert(other.entries[i - 1] == self.entries[i - 1]);
            }
            let editor = self.entries[i].property_editor;
            assert(changed.nodes[editor.0 as int] == ui.nodes[editor.0 as int]);
            if let ValueView::Object(inner) = object.fields[i].value {
                if let Ok(PropertyEditorDefinition::Inspectable(_)) =
                    self.entries[i].property_editor_definition {
                    let nested = ui.context_at(editor);
                    nested.lemma_covers_frame(
                        nested,
                        ui,
                        changed,
                        Some(editor),
                        inner,
                        self.floor(i, lo),
                        editor.0 as int,
                        editor.0 as int,
                        inner.fields.len() as int,
                    );
                }
            }
        }
    }

    /// What is shown as part of no widget is shown as part of `host` once
    /// the interface has made the widgets of the bindings part of `host`.
    pub proof fn lemma_hosted(
        self,
        ui: UserInterfaceView,
        adopted: UserInterfaceView,
        host: Handle,
        object: ObjectView,
        lo: int,
        hi: int,
    )
        requires
            self.shows(ui, None, object, lo, hi),
            adopted.nodes.len() >= ui.nodes.len(),
            forall|k: int|
                0 <= k < ui.nodes.len() ==> #[trigger] adopted.nodes[k] == (if self.edits_with(
                    Handle(k as usize),
                    self.entries.len() as int,
                ) {
                    UiNodeView { parent: Some(host), ..ui.nodes[k] }
                } else {
                    ui.nodes[k]
                }),
        ensures
            self.shows(adopted, Some(host), object, lo, hi),
    {
        let n = object.fields.len() as int;
        assert forall|i: int| 0 <= i < n implies {
            &&& #[trigger] self.binds(adopted, Some(host), object, i, lo, hi)
            &&& (object.fields[i].value matches ValueView::Object(inner) ==> (
            self.entries[i].property_editor_definition matches Ok(
                PropertyEditorDefinition::Inspectable(_),
            ) ==> adopted.context_at(self.entries[i].property_editor).covers(
                adopted,
                Some(self.entries[i].property_editor),
                inner,
                self.floor(i, lo),
                self.entries[i].property_editor.0 as int,
                inner.fields.len() as int,
            )))
        } by {
            assert(self.binds(ui, None, object, i, lo, hi));
            self.lemma_floor(ui, None, object, lo, hi, n, i);
            let editor = self.entries[i].property_editor;
            assert(self.edits_with(editor, self.entries.len() as int));
            assert(adopted.nodes[editor.0 as int] == (UiNodeView {
                parent: Some(host),
                ..ui.nodes[editor.0 as int]
            }));
            if let ValueView::Object(inner) = object.fields[i].value {
                if let Ok(PropertyEditorDefinition::Inspectable(_)) =
                    self.entries[i].property_editor_definition {
                    let nested = ui.context_at(editor);
                    assert forall|k: int| self.floor(i, lo) <= k < editor.0 implies adopted.nodes[k]
                        == ui.nodes[k] by {
                        if self.edits_with(Handle(k as usize), self.entries.len() as int) {
                            let j = choose|j: int|
                                0 <= j < self.entries.len() && (#[trigger] self.entries[j]).property_editor
                                    == Handle(k as usize);
                            if j < i {
                                self.lemma_rising(ui, None, object, lo, hi, n, j, i);
                            } else if j > i {
                                self.lemma_rising(ui, None, object, lo, hi, n, i, j);
                                self.lemma_floor(ui, None, object, lo, hi, n, j);
                            }
                        }
                    }
                    nested.lemma_covers_frame(
                        nested,
                        ui,
                        adopted,
                        Some(editor),
                        inner,
                        self.floor(i, lo),
                        editor.0 as int,
                        editor.0 as int,
                        inner.fields.len() as int,
                    );
                }
            }
        }
    }

    /// Hosting what was built gives an inspector of the object: `filled` is
    /// `before` with the bindings of `object` built at its end, and `after`
    /// is `filled` with an inspector put at `root` that hosts them.
    pub proof fn lemma_inspector_built(
        self,
        before: UserInterfaceView,
        filled: UserInterfaceView,
        after: UserInterfaceView,
        root: Handle,
        object: ObjectView,
    )
        requires
            self.shows(filled, None, object, before.nodes.len() as int, filled.nodes.len() as int),
            before.nodes.len() <= filled.nodes.len(),
            filled.nodes.subrange(0, before.nodes.len() as int) == before.nodes,
            filled.messages == before.messages,
            root.0 == filled.nodes.len(),
            after == filled.adopt(self, root).add(
                UiNodeView { parent: None, widget: WidgetView::Inspector(self) },
            ),
        ensures
            after.inspects(
                before,
                root,
                object,
                self.property_definitions,
                self.environment,
                self.sync_flag,
            ),
    {
        let lo = before.nodes.len() as int;
        let hi = filled.nodes.len() as int;
        self.lemma_hosted(filled, after, root, object, lo, hi);
        assert forall|k: int| 0 <= k < lo implies after.nodes[k] == before.nodes[k] by {
            if self.edits_with(Handle(k as usize), self.entries.len() as int) {
                let j = choose|j: int|
                    0 <= j < self.entries.len() && (#[trigger] self.entries[j]).property_editor
                        == Handle(k as usize);
                self.lemma_floor(filled, None, object, lo, hi, object.fields.len() as int, j);
            }
            assert(filled.nodes.subrange(0, lo)[k] == before.nodes[k]);
        }
        assert(after.nodes.subrange(0, lo) =~= before.nodes);
    }

    /// What shows an object is bound for every object: a pass over any
    /// object finds an inspector wherever it goes down.
    pub proof fn lemma_shown_is_bound(
        self,
        ui: UserInterfaceView,
        host: Option<Handle>,
        shown: ObjectView,
        lo: int,
        hi: int,
        object: ObjectView,
    )
        requires
            self.shows(ui, host, shown, lo, hi),
        ensures
            self.bound_for(ui, object),
        decreases object,
    {
        assert forall|i: int| 0 <= i < object.fields.len() implies ((
        #[trigger] object.fields[i]).value matches ValueView::Object(inner) ==> (self.nested_editor(
            object.property(i),
        ) matches Some(editor) ==> {
            &&& ui.contains(editor)
            &&& ui.node(editor).widget is Inspector
            &&& ui.context_at(editor).bound_for(ui, inner)
        })) by {
            if let ValueView::Object(inner) = object.fields[i].value {
                if let Some(editor) = self.nested_editor(object.property(i)) {
                    let j = self.find(object.fields[i].name).unwrap();
                    self.lemma_found(object.fields[i].name, 0);
                    assert(self.binds(ui, host, shown, j, lo, hi));
                    ui.context_at(editor).lemma_shown_is_bound(
                        ui,
                        Some(editor),
                        shown.fields[j].value->Object_0,
                        self.floor(j, lo),
                        editor.0 as int,
                        inner,
                    );
                }
            }
        }
    }

    /// A binding that is found is one of the bindings.
    pub proof fn lemma_found(self, name: Seq<char>, from: int)
        requires
            0 <= from,
        ensures
            self.find_from(name, from) matches Some(j) ==> from <= j < self.entries.len()
                && self.entries[j].property_name == name,
        decreases self.entries.len() - from,
    {
        if from < self.entries.len() && self.entries[from].property_name != name {
            self.lemma_found(name, from + 1);
        }
    }

    /// Whether bindings are bound for an object reads the widgets of the
    /// interface, not its queue.
    pub proof fn lemma_bound_reads_widgets(
        self,
        ui: UserInterfaceView,
        other: UserInterfaceView,
        object: ObjectView,
    )
        requires
            ui.nodes == other.nodes,
            self.bound_for(ui, object),
        ensures
            self.bound_for(other, object),
        decreases object,
    {
        assert forall|i: int| 0 <= i < object.fields.len() implies ((
        #[trigger] object.fields[i]).value matches ValueView::Object(inner) ==> (self.nested_editor(
            object.property(i),
        ) matches Some(editor) ==> {
            &&& other.contains(editor)
            &&& other.node(editor).widget is Inspector
            &&& other.context_at(editor).bound_for(other, inner)
        })) by {
            if let ValueView::Object(inner) = object.fields[i].value {
                if let Some(editor) = self.nested_editor(object.property(i)) {
                    ui.context_at(editor).lemma_bound_reads_widgets(ui, other, inner);
                }
            }
        }
    }

    /// The pass from field `i` on is the outcome of field `i` followed by
    /// the pass from the next field on.
    pub proof fn lemma_sync_step(self, ui: UserInterfaceView, object: ObjectView, i: int)
        requires
            0 <= i < object.fields.len(),
        ensures
            self.sync_from(ui, object, i) == self.field_outcome(
                ui,
                object.property(i),
            ).followed_by(self.sync_from(ui, object, i + 1)),
    {
    }

    /// The outcome of a field whose binding has an editor is the outcome of
    /// that editor's definition on the binding's widget.
    pub proof fn lemma_field_outcome(self, ui: UserInterfaceView, info: PropertyInfoView, j: int)
        requires
            self.find(info.name) == Some(j),
            self.entries[j].property_editor_definition is Ok,
        ensures
            self.field_outcome(ui, info) == self.entries[j].property_editor_definition->Ok_0.outcome(
                ui,
                info,
                self.entries[j].property_editor,
                self.sync_flag,
            ),
    {
    }

    /// A pass reads the widgets of the interface, not its queue.
    pub proof fn lemma_sync_reads_widgets(
        self,
        ui: UserInterfaceView,
        other: UserInterfaceView,
        object: ObjectView,
        i: int,
    )
        requires
            ui.nodes == other.nodes,
        ensures
            self.sync_from(ui, object, i) == self.sync_from(other, object, i),
        decreases object, object.fields.len() - i,
    {
        if 0 <= i < object.fields.len() {
            self.lemma_sync_reads_widgets(ui, other, object, i + 1);
            let info = object.property(i);
            if let ValueView::Object(inner) = object.fields[i].value {
                if let Some(editor) = self.nested_editor(info) {
                    ui.context_at(editor).lemma_sync_reads_widgets(ui, other, inner, 0);
                }
            }
        }
    }
}

/// The outcome of one field reads the widgets of the interface, not its
/// queue.
pub proof fn lemma_field_reads_widgets(
    context: InspectorContextView,
    ui: UserInterfaceView,
    other: UserInterfaceView,
    info: PropertyInfoView,
)
    requires
        ui.nodes == other.nodes,
    ensures
        context.field_outcome(ui, info) == context.field_outcome(other, info),
{
    if let ValueView::Object(inner) = info.value {
        if let Some(editor) = context.nested_editor(info) {
            ui.context_at(editor).lemma_sync_reads_widgets(ui, other, inner, 0);
        }
    }
}

} // verus!
