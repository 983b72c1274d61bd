//! The laws of the inspector: what holds of building, updating and
//! reporting taken together, proved from the contracts of the functions.

pub mod second_pass;

use vstd::prelude::*;
use crate::error::InspectorErrorView;
use crate::inspector::bindings::resolve;
use crate::inspector::bindings::SyncOutcome;
use crate::inspector::context::InspectorContextView;
use crate::inspector::editors::inspectable::InspectablePropertyEditorDefinition;
use crate::inspector::editors::PropertyEditorDefinition;
use crate::message::FieldKindView;
use crate::message::MessageDirection;
use crate::message::PropertyChangedView;
use crate::message::UiMessageDataView;
use crate::message::UiMessageView;
use crate::reflect::ObjectView;
use crate::reflect::PrimitiveView;
use crate::reflect::PropertyInfoView;
use crate::reflect::TypeId;
use crate::reflect::ValueView;
use crate::ui::Handle;
use crate::ui::UiNodeView;
use crate::ui::UserInterfaceView;
use crate::ui::WidgetView;

verus! {

impl ObjectView {
    /// Whether `path` is a chain of fields that each hold an object, every
    /// one a field of the object held by the one before.
    pub open spec fn nests(self, path: Seq<int>) -> bool
        decreases path.len(),
    {
        path.len() > 0 ==> {
            &&& 0 <= path[0] < self.fields.len()
            &&& self.fields[path[0]].value matches ValueView::Object(inner)
            &&& inner.nests(path.drop_first())
        }
    }

    /// The object at the end of the chain of fields `path`.
    pub open spec fn descend(self, path: Seq<int>) -> ObjectView
        decreases path.len(),
    {
        if path.len() == 0 {
            self
        } else {
            (self.fields[path[0]].value->Object_0).descend(path.drop_first())
        }
    }
}

impl InspectorContextView {
    /// Whether every field of the chain `path` has a composite editor.
    pub open spec fn nests(self, ui: UserInterfaceView, path: Seq<int>) -> bool
        decreases path.len(),
    {
        path.len() > 0 ==> {
            &&& 0 <= path[0] < self.entries.len()
            &&& self.entries[path[0]].property_editor_definition matches Ok(
                PropertyEditorDefinition::Inspectable(_),
            )
            &&& ui.context_at(self.entries[path[0]].property_editor).nests(ui, path.drop_first())
        }
    }

    /// The bindings hosted by the nested inspector at the end of the chain
    /// of fields `path`.
    pub open spec fn descend(self, ui: UserInterfaceView, path: Seq<int>) -> InspectorContextView
        decreases path.len(),
    {
        if path.len() == 0 {
            self
        } else {
            ui.context_at(self.entries[path[0]].property_editor).descend(ui, path.drop_first())
        }
    }
}

/// Building gives one binding per field, at every level of nesting: where
/// bindings show an object, the bindings hosted by the nested inspector at
/// the end of any chain of composite fields are as many as the fields of the
/// object held there, and bear the names of those fields in order.
pub proof fn law_one_binding_per_field(
    context: InspectorContextView,
    ui: UserInterfaceView,
    host: Option<Handle>,
    object: ObjectView,
    lo: int,
    hi: int,
    path: Seq<int>,
)
    requires
        context.shows(ui, host, object, lo, hi),
        object.nests(path),
        context.nests(ui, path),
    ensures
        context.descend(ui, path).entries.len() == object.descend(path).fields.len(),
        forall|i: int|
            0 <= i < object.descend(path).fields.len() ==> context.descend(
                ui,
                path,
            ).entries[i].property_name == object.descend(path).fields[i].name,
    decreases path.len(),
{
    if path.len() == 0 {
        assert forall|i: int| 0 <= i < object.fields.len() implies context.entries[i].property_name
            == object.fields[i].name by {
            assert(context.binds(ui, host, object, i, lo, hi));
        }
    } else {
        let i = path[0];
        assert(context.binds(ui, host, object, i, lo, hi));
        let editor = context.entries[i].property_editor;
        let inner = object.fields[i].value->Object_0;
        law_one_binding_per_field(
            ui.context_at(editor),
            ui,
            Some(editor),
            inner,
            context.floor(i, lo),
            editor.0 as int,
            path.drop_first(),
        );
    }
}

/// Where bindings show an addressable object, the binding found for the name
/// of field `i` is binding `i`.
pub proof fn lemma_finds_own_binding(
    context: InspectorContextView,
    ui: UserInterfaceView,
    host: Option<Handle>,
    object: ObjectView,
    lo: int,
    hi: int,
    i: int,
    from: int,
)
    requires
        context.shows(ui, host, object, lo, hi),
        object.addressable(),
        0 <= from <= i < object.fields.len(),
    ensures
        context.find_from(object.fields[i].name, from) == Some(i),
    decreases i - from,
{
    assert(context.binds(ui, host, object, i, lo, hi));
    if from < i {
        assert(context.binds(ui, host, object, from, lo, hi));
        lemma_finds_own_binding(context, ui, host, object, lo, hi, i, from + 1);
    }
}

/// Where bindings show an addressable object, a pass over that object from
/// any field on sends no message.
pub proof fn lemma_shown_is_silent(
    context: InspectorContextView,
    ui: UserInterfaceView,
    host: Option<Handle>,
    object: ObjectView,
    lo: int,
    hi: int,
    i: int,
)
    requires
        context.shows(ui, host, object, lo, hi),
        object.addressable(),
        0 <= i,
    ensures
        context.sync_from(ui, object, i).messages == Seq::<UiMessageView>::empty(),
    decreases object, object.fields.len() - i,
{
    if i < object.fields.len() {
        lemma_shown_is_silent(context, ui, host, object, lo, hi, i + 1);
        lemma_shown_field_is_silent(context, ui, host, object, lo, hi, i);
        context.lemma_sync_step(ui, object, i);
        assert(context.sync_from(ui, object, i).messages =~= Seq::<UiMessageView>::empty());
    }
}

/// Where bindings show an addressable object, no field of that object has
/// anything to send.
pub proof fn lemma_shown_field_is_silent(
    context: InspectorContextView,
    ui: UserInterfaceView,
    host: Option<Handle>,
    object: ObjectView,
    lo: int,
    hi: int,
    i: int,
)
    requires
        context.shows(ui, host, object, lo, hi),
        object.addressable(),
        0 <= i < object.fields.len(),
    ensures
        context.field_outcome(ui, object.property(i)).messages == Seq::<UiMessageView>::empty(),
    decreases object, 0nat,
{
    let info = object.property(i);
    lemma_finds_own_binding(context, ui, host, object, lo, hi, i, 0);
    assert(context.binds(ui, host, object, i, lo, hi));
    let entry = context.entries[i];
    match entry.property_editor_definition {
        Ok(PropertyEditorDefinition::Inspectable(definition)) => {
            let inner = object.fields[i].value->Object_0;
            assert(context.nested_editor(info) == Some(entry.property_editor));
            lemma_shown_is_silent(
                ui.context_at(entry.property_editor),
                ui,
                Some(entry.property_editor),
                inner,
                context.floor(i, lo),
                entry.property_editor.0 as int,
                0,
            );
        },
        Ok(PropertyEditorDefinition::Primitive(definition)) => {
        },
        Err(_) => {
        },
    }
}

impl ObjectView {
    /// Whether the registry `definitions` has an editor for every field of
    /// the object, and for every field of every object nested in it.
    pub open spec fn served_by(self, definitions: Map<TypeId, PropertyEditorDefinition>) -> bool
        decreases self,
    {
        forall|i: int|
            0 <= i < self.fields.len() ==> {
                &&& resolve(definitions, #[trigger] self.property(i)) is Ok
                &&& (self.fields[i].value matches ValueView::Object(inner) ==> inner.served_by(
                    definitions,
                ))
            }
    }
}

/// Where bindings show an addressable object and the registry has an editor
/// for every field, a pass over that object from any field on fails
/// nowhere.
pub proof fn lemma_shown_has_no_errors(
    context: InspectorContextView,
    ui: UserInterfaceView,
    host: Option<Handle>,
    object: ObjectView,
    lo: int,
    hi: int,
    i: int,
)
    requires
        context.shows(ui, host, object, lo, hi),
        object.addressable(),
        object.served_by(context.property_definitions),
        0 <= i,
    ensures
        context.sync_from(ui, object, i).errors == Seq::<InspectorErrorView>::empty(),
    decreases object, object.fields.len() - i,
{
    if i < object.fields.len() {
        lemma_shown_has_no_errors(context, ui, host, object, lo, hi, i + 1);
        context.lemma_sync_step(ui, object, i);
        let info = object.property(i);
        lemma_finds_own_binding(context, ui, host, object, lo, hi, i, 0);
        assert(context.binds(ui, host, object, i, lo, hi));
        assert(resolve(context.property_definitions, info) is Ok);
        let entry = context.entries[i];
        if let Ok(PropertyEditorDefinition::Inspectable(_)) = entry.property_editor_definition {
            let inner = object.fields[i].value->Object_0;
            assert(context.nested_editor(info) == Some(entry.property_editor));
            lemma_shown_has_no_errors(
                ui.context_at(entry.property_editor),
                ui,
                Some(entry.property_editor),
                inner,
                context.floor(i, lo),
                entry.property_editor.0 as int,
                0,
            );
        }
        assert(context.field_outcome(ui, info).errors =~= Seq::<InspectorErrorView>::empty());
        assert(context.sync_from(ui, object, i).errors =~= Seq::<InspectorErrorView>::empty());
    }
}

/// Bringing bindings up to date with the object they show sends no message:
/// the queue of the interface stays as it is, and where it was empty no
/// number of steps ever reports a change. Where the registry has an editor
/// for every field, the pass fails nowhere either.
pub proof fn law_unchanged_value_sends_nothing(
    context: InspectorContextView,
    ui: UserInterfaceView,
    host: Option<Handle>,
    object: ObjectView,
    lo: int,
    hi: int,
    steps: nat,
)
    requires
        context.shows(ui, host, object, lo, hi),
        object.addressable(),
    ensures
        context.sync(ui, object).messages.len() == 0,
        ui.send_all(context.sync(ui, object).messages) == ui,
        ui.messages.len() == 0 ==> ui.send_all(context.sync(ui, object).messages).run(steps) == ui,
        object.served_by(context.property_definitions) ==> context.sync(ui, object).errors.len()
            == 0,
    decreases steps,
{
    lemma_shown_is_silent(context, ui, host, object, lo, hi, 0);
    if object.served_by(context.property_definitions) {
        lemma_shown_has_no_errors(context, ui, host, object, lo, hi, 0);
    }
    assert(ui.send_all(Seq::<UiMessageView>::empty()).messages =~= ui.messages);
    if steps > 0 {
        law_unchanged_value_sends_nothing(context, ui, host, object, lo, hi, (steps - 1) as nat);
    }
}

impl ObjectView {
    /// Whether `other` is this object with one leaf changed: the leaf at the
    /// end of the chain of fields `path` holds another value of the same
    /// kind, and nothing else differs.
    pub open spec fn differs_at(self, other: ObjectView, path: Seq<int>) -> bool
        decreases path.len(),
    {
        &&& path.len() > 0
        &&& other.type_id == self.type_id
        &&& other.fields.len() == self.fields.len()
        &&& 0 <= path[0] < self.fields.len()
        &&& forall|i: int|
            0 <= i < self.fields.len() && i != path[0] ==> other.fields[i] == self.fields[i]
        &&& other.fields[path[0]].name == self.fields[path[0]].name
        &&& if path.len() == 1 {
            &&& self.fields[path[0]].value matches ValueView::Primitive(was)
            &&& other.fields[path[0]].value matches ValueView::Primitive(is)
            &&& was.kind() == is.kind()
            &&& was != is
        } else {
            &&& self.fields[path[0]].value matches ValueView::Object(was)
            &&& other.fields[path[0]].value matches ValueView::Object(is)
            &&& was.differs_at(is, path.drop_first())
        }
    }

    /// The leaf value at the end of the chain of fields `path`.
    pub open spec fn leaf(self, path: Seq<int>) -> PrimitiveView
        decreases path.len(),
    {
        if path.len() <= 1 {
            self.fields[path[0]].value->Primitive_0
        } else {
            (self.fields[path[0]].value->Object_0).leaf(path.drop_first())
        }
    }

    /// The change record that names the leaf at the end of the chain of
    /// fields `path` by its whole path and carries the leaf's value: one
    /// record per field of the chain, each holding the next.
    pub open spec fn change_at(self, path: Seq<int>) -> PropertyChangedView
        decreases path.len(),
    {
        PropertyChangedView {
            name: self.fields[path[0]].name,
            owner_type_id: self.identity(),
            value: if path.len() <= 1 {
                FieldKindView::Value(self.fields[path[0]].value->Primitive_0)
            } else {
                FieldKindView::Inspectable(
                    Box::new((self.fields[path[0]].value->Object_0).change_at(path.drop_first())),
                )
            },
        }
    }
}

impl InspectorContextView {
    /// Whether every field of the chain `path` has an editor.
    pub open spec fn edits(self, ui: UserInterfaceView, path: Seq<int>) -> bool
        decreases path.len(),
    {
        path.len() > 0 ==> {
            &&& 0 <= path[0] < self.entries.len()
            &&& self.entries[path[0]].property_editor_definition is Ok
            &&& ui.context_at(self.entries[path[0]].property_editor).edits(ui, path.drop_first())
        }
    }

    /// The widget of the field at the end of the chain of fields `path`.
    pub open spec fn editor_at(self, ui: UserInterfaceView, path: Seq<int>) -> Handle
        decreases path.len(),
    {
        if path.len() <= 1 {
            self.entries[path[0]].property_editor
        } else {
            ui.context_at(self.entries[path[0]].property_editor).editor_at(ui, path.drop_first())
        }
    }
}

/// The instruction to the editor `editor` to show `value`, marked `flags`.
pub open spec fn instruction(editor: Handle, value: PrimitiveView, flags: u64) -> UiMessageView {
    UiMessageView {
        destination: editor,
        direction: MessageDirection::ToWidget,
        data: UiMessageDataView::Value(value),
        flags,
    }
}

/// The report of the inspector `inspector` that `change` happened, marked
/// `flags`.
pub open spec fn report_of(inspector: Handle, change: PropertyChangedView, flags: u64) -> UiMessageView {
    UiMessageView {
        destination: inspector,
        direction: MessageDirection::FromWidget,
        data: UiMessageDataView::PropertyChanged(change),
        flags,
    }
}

/// A change record for a leaf under `path` names one object per field of the
/// path above the leaf, and carries the leaf's value innermost.
pub proof fn lemma_change_record_shape(object: ObjectView, other: ObjectView, path: Seq<int>)
    requires
        object.differs_at(other, path),
    ensures
        other.change_at(path).depth() == path.len() - 1,
        other.change_at(path).innermost() == other.leaf(path),
        other.leaf(path) != object.leaf(path),
        other.leaf(path).kind() == object.leaf(path).kind(),
    decreases path.len(),
{
    if path.len() > 1 {
        lemma_change_record_shape(
            object.fields[path[0]].value->Object_0,
            other.fields[path[0]].value->Object_0,
            path.drop_first(),
        );
    }
}

/// Where bindings show an object and exactly one leaf of it has changed, a
/// pass over the changed object from field `i` on sends the one instruction
/// that makes the leaf's editor show the new value, if the field that leads
/// to the leaf is still to come, and nothing otherwise.
pub proof fn lemma_single_change_sync(
    context: InspectorContextView,
    ui: UserInterfaceView,
    host: Option<Handle>,
    object: ObjectView,
    changed: ObjectView,
    path: Seq<int>,
    lo: int,
    hi: int,
    i: int,
)
    requires
        context.shows(ui, host, object, lo, hi),
        object.addressable(),
        object.differs_at(changed, path),
        context.edits(ui, path),
        0 <= i,
    ensures
        context.sync_from(ui, changed, i).messages == (if i <= path[0] {
            seq![instruction(context.editor_at(ui, path), changed.leaf(path), context.sync_flag)]
        } else {
            Seq::<UiMessageView>::empty()
        }),
    decreases object, object.fields.len() - i,
{
    if i < object.fields.len() {
        lemma_single_change_sync(context, ui, host, object, changed, path, lo, hi, i + 1);
        context.lemma_sync_step(ui, changed, i);
        let rest = context.sync_from(ui, changed, i + 1);
        let head = context.field_outcome(ui, changed.property(i));
        if i != path[0] {
            assert(changed.property(i) == object.property(i));
            lemma_shown_field_is_silent(context, ui, host, object, lo, hi, i);
            assert(head.messages + rest.messages =~= rest.messages);
        } else {
            lemma_single_change_field(context, ui, host, object, changed, path, lo, hi);
            assert(head.messages + rest.messages =~= head.messages);
        }
    }
}

/// Where bindings show an object and exactly one leaf of it has changed, the
/// field that leads to the leaf sends the one instruction that makes the
/// leaf's editor show the new value.
pub proof fn lemma_single_change_field(
    context: InspectorContextView,
    ui: UserInterfaceView,
    host: Option<Handle>,
    object: ObjectView,
    changed: ObjectView,
    path: Seq<int>,
    lo: int,
    hi: int,
)
    requires
        context.shows(ui, host, object, lo, hi),
        object.addressable(),
        object.differs_at(changed, path),
        context.edits(ui, path),
    ensures
        context.field_outcome(ui, changed.property(path[0])).messages == seq![
            instruction(context.editor_at(ui, path), changed.leaf(path), context.sync_flag),
        ],
    decreases object, 0nat,
{
    let i = path[0];
    let info = changed.property(i);
    lemma_finds_own_binding(context, ui, host, object, lo, hi, i, 0);
    assert(context.binds(ui, host, object, i, lo, hi));
    let entry = context.entries[i];
    if path.len() > 1 {
        let inner = object.fields[i].value->Object_0;
        let inner_changed = changed.fields[i].value->Object_0;
        assert(inner.differs_at(inner_changed, path.drop_first()));
        assert(inner_changed.type_id == inner.type_id);
        assert(context.find(info.name) == Some(i));
        assert(entry.property_editor_definition is Ok);
        assert(context.nested_editor(info) == Some(entry.property_editor));
        let nested = ui.context_at(entry.property_editor);
        lemma_single_change_sync(
            nested,
            ui,
            Some(entry.property_editor),
            inner,
            inner_changed,
            path.drop_first(),
            context.floor(i, lo),
            entry.property_editor.0 as int,
            0,
        );
    }
}

/// Whether `other` has the widgets of `ui` in the same places, each part of
/// the same widget, and the same inspectors.
pub open spec fn same_structure(ui: UserInterfaceView, other: UserInterfaceView) -> bool {
    &&& other.nodes.len() == ui.nodes.len()
    &&& forall|k: int|
        0 <= k < ui.nodes.len() ==> {
            &&& (#[trigger] other.nodes[k]).parent == ui.nodes[k].parent
            &&& (ui.nodes[k].widget is Inspector ==> other.nodes[k].widget == ui.nodes[k].widget)
        }
}

/// Where bindings show an object, the binding that owns the widget of
/// binding `i` is binding `i`.
pub proof fn lemma_owns_own_widget(
    context: InspectorContextView,
    ui: UserInterfaceView,
    host: Option<Handle>,
    object: ObjectView,
    lo: int,
    hi: int,
    i: int,
    from: int,
)
    requires
        context.shows(ui, host, object, lo, hi),
        0 <= from <= i < object.fields.len(),
    ensures
        context.owner_from(context.entries[i].property_editor, from) == Some(i),
    decreases i - from,
{
    if from < i {
        context.lemma_rising(ui, host, object, lo, hi, object.fields.len() as int, from, i);
        context.lemma_floor(ui, host, object, lo, hi, object.fields.len() as int, i);
        lemma_owns_own_widget(context, ui, host, object, lo, hi, i, from + 1);
    }
}

/// Where bindings show an object, the widget of an edited leaf is a leaf
/// editor of the interface that shows the leaf's value and is part of some
/// widget.
pub proof fn lemma_leaf_editor(
    context: InspectorContextView,
    ui: UserInterfaceView,
    host: Handle,
    object: ObjectView,
    changed: ObjectView,
    path: Seq<int>,
    lo: int,
    hi: int,
)
    requires
        context.shows(ui, Some(host), object, lo, hi),
        object.differs_at(changed, path),
        context.edits(ui, path),
    ensures
        ui.contains(context.editor_at(ui, path)),
        ui.node(context.editor_at(ui, path)).widget == WidgetView::Editor(object.leaf(path)),
        ui.node(context.editor_at(ui, path)).parent is Some,
    decreases path.len(),
{
    let i = path[0];
    assert(context.binds(ui, Some(host), object, i, lo, hi));
    if path.len() > 1 {
        let editor = context.entries[i].property_editor;
        lemma_leaf_editor(
            ui.context_at(editor),
            ui,
            editor,
            object.fields[i].value->Object_0,
            changed.fields[i].value->Object_0,
            path.drop_first(),
            context.floor(i, lo),
            editor.0 as int,
        );
    }
}

/// Where bindings show an object, the widget of an edited leaf lies in the
/// range of handles of the field that leads to it.
pub proof fn lemma_leaf_in_range(
    context: InspectorContextView,
    ui: UserInterfaceView,
    host: Option<Handle>,
    object: ObjectView,
    changed: ObjectView,
    path: Seq<int>,
    lo: int,
    hi: int,
)
    requires
        context.shows(ui, host, object, lo, hi),
        object.differs_at(changed, path),
        context.edits(ui, path),
    ensures
        context.floor(path[0], lo) <= context.editor_at(ui, path).0
            <= context.entries[path[0]].property_editor.0,
        path.len() > 1 ==> context.editor_at(ui, path).0
            < context.entries[path[0]].property_editor.0,
    decreases path.len(),
{
    let i = path[0];
    assert(context.binds(ui, host, object, i, lo, hi));
    if path.len() > 1 {
        let editor = context.entries[i].property_editor;
        let nested = ui.context_at(editor);
        let inner = object.fields[i].value->Object_0;
        let rest = path.drop_first();
        lemma_leaf_in_range(
            nested,
            ui,
            Some(editor),
            inner,
            changed.fields[i].value->Object_0,
            rest,
            context.floor(i, lo),
            editor.0 as int,
        );
        nested.lemma_floor(
            ui,
            Some(editor),
            inner,
            context.floor(i, lo),
            editor.0 as int,
            inner.fields.len() as int,
            rest[0],
        );
    }
}

/// Once the editor of the changed leaf shows the new value, the bindings
/// show the changed object: `after` is `ui` with that one editor changed.
pub proof fn lemma_shows_changed(
    context: InspectorContextView,
    ui: UserInterfaceView,
    after: UserInterfaceView,
    host: Option<Handle>,
    object: ObjectView,
    changed: ObjectView,
    path: Seq<int>,
    lo: int,
    hi: int,
)
    requires
        context.shows(ui, host, object, lo, hi),
        object.differs_at(changed, path),
        context.edits(ui, path),
        after.nodes.len() == ui.nodes.len(),
        forall|k: int|
            lo <= k < hi && k != context.editor_at(ui, path).0 ==> after.nodes[k] == ui.nodes[k],
        after.nodes[context.editor_at(ui, path).0 as int] == (UiNodeView {
            widget: WidgetView::Editor(changed.leaf(path)),
            ..ui.nodes[context.editor_at(ui, path).0 as int]
        }),
    ensures
        context.shows(after, host, changed, lo, hi),
    decreases path.len(),
{
    let p = path[0];
    let n = object.fields.len() as int;
    let leaf = context.editor_at(ui, path);
    lemma_leaf_in_range(context, ui, host, object, changed, path, lo, hi);
    assert forall|i: int| 0 <= i < n implies {
        &&& #[trigger] context.binds(after, host, changed, i, lo, hi)
        &&& (changed.fields[i].value matches ValueView::Object(inner) ==> (
        context.entries[i].property_editor_definition matches Ok(
            PropertyEditorDefinition::Inspectable(_),
        ) ==> after.context_at(context.entries[i].property_editor).covers(
            after,
            Some(context.entries[i].property_editor),
            inner,
            context.floor(i, lo),
            context.entries[i].property_editor.0 as int,
            inner.fields.len() as int,
        )))
    } by {
        assert(context.binds(ui, host, object, i, lo, hi));
        context.lemma_floor(ui, host, object, lo, hi, n, i);
        let editor = context.entries[i].property_editor;
        if i != p {
            assert(changed.fields[i] == object.fields[i]);
            assert(changed.property(i) == object.property(i));
            if i < p {
                context.lemma_rising(ui, host, object, lo, hi, n, i, p);
            } else {
                context.lemma_rising(ui, host, object, lo, hi, n, p, i);
            }
            assert(after.nodes[editor.0 as int] == ui.nodes[editor.0 as int]);
            if let ValueView::Object(inner) = object.fields[i].value {
                if let Ok(PropertyEditorDefinition::Inspectable(_)) =
                    context.entries[i].property_editor_definition {
                    let nested = ui.context_at(editor);
                    nested.lemma_covers_frame(
                        nested,
                        ui,
                        after,
                        Some(editor),
                        inner,
                        context.floor(i, lo),
                        editor.0 as int,
                        editor.0 as int,
                        inner.fields.len() as int,
                    );
                }
            }
        } else if path.len() == 1 {
            assert(leaf == editor);
        } else {
            let inner = object.fields[i].value->Object_0;
            let inner_changed = changed.fields[i].value->Object_0;
            assert(inner.differs_at(inner_changed, path.drop_first()));
            assert(after.nodes[editor.0 as int] == ui.nodes[editor.0 as int]);
            let nested = ui.context_at(editor);
            lemma_shows_changed(
                nested,
                ui,
                after,
                Some(editor),
                inner,
                inner_changed,
                path.drop_first(),
                context.floor(i, lo),
                editor.0 as int,
            );
        }
    }
}

/// Running one step more is running from the interface after its first
/// step.
pub proof fn lemma_run_shift(ui: UserInterfaceView, n: nat)
    ensures
        ui.run(n + 1) == ui.step().run(n),
    decreases n,
{
    assert(ui.run(n + 1) == ui.run(n).step());
    if n == 0 {
        assert(ui.run(0) == ui);
        assert(ui.step().run(0) == ui.step());
    } else {
        lemma_run_shift(ui, (n - 1) as nat);
        assert(ui.step().run(n) == ui.step().run((n - 1) as nat).step());
    }
}

/// The way up of a change. The interface `shown` has the inspector `host`
/// whose bindings show `object`, and `ui` has the same structure; the editor
/// of the changed leaf has just reported its new value in `ui`. Then one
/// step per field of `path` takes the report up through the nested
/// inspectors, each wrapping the record of the one below, until `host`
/// reports the change with its whole path. On the way the queue holds one
/// message at a time, from a widget that is part of another, and no widget
/// changes.
pub proof fn lemma_change_bubbles_up(
    context: InspectorContextView,
    shown: UserInterfaceView,
    ui: UserInterfaceView,
    host: Handle,
    object: ObjectView,
    changed: ObjectView,
    path: Seq<int>,
    lo: int,
    hi: int,
    flags: u64,
)
    requires
        context.shows(shown, Some(host), object, lo, hi),
        shown.contains(host),
        shown.node(host).widget == WidgetView::Inspector(context),
        object.differs_at(changed, path),
        context.edits(shown, path),
        same_structure(shown, ui),
        ui.messages == seq![
            instruction(context.editor_at(shown, path), changed.leaf(path), flags).reverse(),
        ],
    ensures
        ui.run(path.len()).nodes == ui.nodes,
        ui.run(path.len()).messages == seq![report_of(host, changed.change_at(path), flags)],
        forall|t: nat|
            t < path.len() ==> {
                &&& (#[trigger] ui.run(t)).nodes == ui.nodes
                &&& ui.run(t).messages.len() == 1
                &&& shown.contains(ui.run(t).messages[0].destination)
                &&& shown.node(ui.run(t).messages[0].destination).parent is Some
            },
    decreases path.len(),
{
    let i = path[0];
    let n = path.len();
    let entry = context.entries[i];
    let editor = entry.property_editor;
    assert(context.binds(shown, Some(host), object, i, lo, hi));
    lemma_owns_own_widget(context, shown, Some(host), object, lo, hi, i, 0);
    lemma_change_record_shape(object, changed, path);
    assert(ui.nodes[host.0 as int].widget == shown.nodes[host.0 as int].widget);
    assert(ui.nodes[editor.0 as int].parent == shown.nodes[editor.0 as int].parent);
    if n == 1 {
        let echo = ui.messages[0];
        let popped = UserInterfaceView { messages: ui.messages.drop_first(), ..ui };
        assert(popped.messages =~= Seq::<UiMessageView>::empty());
        assert(!popped.changes(echo));
        assert(context.translate(echo) == Some(changed.change_at(path)));
        assert(popped.report(echo) == Some(report_of(host, changed.change_at(path), flags)));
        assert(ui.run(0) == ui);
        assert(ui.run(1) == ui.run(0).step());
        assert(ui.run(1).messages =~= seq![report_of(host, changed.change_at(path), flags)]);
        assert forall|t: nat| t < n implies {
            &&& (#[trigger] ui.run(t)).nodes == ui.nodes
            &&& ui.run(t).messages.len() == 1
            &&& shown.contains(ui.run(t).messages[0].destination)
            &&& shown.node(ui.run(t).messages[0].destination).parent is Some
        } by {
            assert(t == 0);
        }
    } else {
        let inner = object.fields[i].value->Object_0;
        let inner_changed = changed.fields[i].value->Object_0;
        let nested = shown.context_at(editor);
        let rest = path.drop_first();
        lemma_change_bubbles_up(
            nested,
            shown,
            ui,
            editor,
            inner,
            inner_changed,
            rest,
            context.floor(i, lo),
            editor.0 as int,
            flags,
        );
        let below = ui.run(rest.len());
        let message = below.messages[0];
        assert(message == report_of(editor, inner_changed.change_at(rest), flags));
        let popped = UserInterfaceView { messages: below.messages.drop_first(), ..below };
        assert(popped.messages =~= Seq::<UiMessageView>::empty());
        assert(!popped.changes(message));
        assert(context.translate(message) == Some(changed.change_at(path)));
        assert(popped.report(message) == Some(report_of(host, changed.change_at(path), flags)));
        assert(ui.run(n) == below.step());
        assert(ui.run(n).messages =~= seq![report_of(host, changed.change_at(path), flags)]);
        assert forall|t: nat| t < n implies {
            &&& (#[trigger] ui.run(t)).nodes == ui.nodes
            &&& ui.run(t).messages.len() == 1
            &&& shown.contains(ui.run(t).messages[0].destination)
            &&& shown.node(ui.run(t).messages[0].destination).parent is Some
        } by {
            if t == rest.len() {
            }
        }
    }
}

/// A change to one leaf at any depth is reported exactly once, with its
/// whole path. The inspector `root` is part of no widget, and its bindings
/// show `object`; `changed` is `object` with the leaf at the end of `path`
/// changed, and every field of the path has an editor. Then bringing the
/// bindings up to date with `changed` sends exactly one message; the
/// interface then holds one message at a time, none of them from `root`,
/// until `root` reports one change record, after which the queue is empty.
/// The record names one enclosing object per level of nesting of the leaf
/// and carries the new value of the leaf innermost. In the end the bindings
/// show the changed object: the editor of the leaf shows the new value and
/// every other widget is as it was. Where the registry has an editor for
/// every field of the changed object, the pass fails nowhere.
pub proof fn law_single_change_is_reported_once(
    context: InspectorContextView,
    ui: UserInterfaceView,
    root: Handle,
    object: ObjectView,
    changed: ObjectView,
    path: Seq<int>,
    lo: int,
    hi: int,
)
    requires
        ui.messages.len() == 0,
        ui.contains(root),
        ui.node(root).parent is None,
        ui.node(root).widget == WidgetView::Inspector(context),
        context.shows(ui, Some(root), object, lo, hi),
        object.addressable(),
        object.differs_at(changed, path),
        context.edits(ui, path),
    ensures
        context.sync(ui, changed).messages == seq![
            instruction(context.editor_at(ui, path), changed.leaf(path), context.sync_flag),
        ],
        forall|t: nat|
            t <= path.len() ==> {
                &&& (#[trigger] ui.send_all(context.sync(ui, changed).messages).run(
                    t,
                )).messages.len() == 1
                &&& ui.send_all(context.sync(ui, changed).messages).run(
                    t,
                ).messages[0].destination != root
            },
        ui.send_all(context.sync(ui, changed).messages).run(path.len() + 1).messages == seq![
            report_of(root, changed.change_at(path), context.sync_flag),
        ],
        ui.send_all(context.sync(ui, changed).messages).run(path.len() + 2).messages.len() == 0,
        changed.change_at(path).depth() == path.len() - 1,
        changed.change_at(path).innermost() == changed.leaf(path),
        context.shows(
            ui.send_all(context.sync(ui, changed).messages).run(path.len() + 2),
            Some(root),
            changed,
            lo,
            hi,
        ),
        ui.send_all(context.sync(ui, changed).messages).run(path.len() + 2).nodes
            == ui.nodes.update(
            context.editor_at(ui, path).0 as int,
            UiNodeView {
                widget: WidgetView::Editor(changed.leaf(path)),
                ..ui.nodes[context.editor_at(ui, path).0 as int]
            },
        ),
        changed.served_by(context.property_definitions) ==> context.sync(ui, changed).errors.len()
            == 0,
{
    let flags = context.sync_flag;
    let editor = context.editor_at(ui, path);
    let sent = instruction(editor, changed.leaf(path), flags);
    lemma_single_change_sync(context, ui, Some(root), object, changed, path, lo, hi, 0);
    lemma_change_record_shape(object, changed, path);
    lemma_leaf_editor(context, ui, root, object, changed, path, lo, hi);
    let synced = ui.send_all(context.sync(ui, changed).messages);
    assert(synced.messages =~= seq![sent]);
    let popped = UserInterfaceView { messages: synced.messages.drop_first(), ..synced };
    assert(popped.messages =~= Seq::<UiMessageView>::empty());
    assert(popped.changes(sent));
    let echoed = synced.step();
    assert(echoed == popped.show(editor, changed.leaf(path)).send(sent.reverse()));
    assert(echoed.messages =~= seq![sent.reverse()]);
    assert(same_structure(ui, echoed));
    lemma_change_bubbles_up(context, ui, echoed, root, object, changed, path, lo, hi, flags);
    lemma_run_shift(synced, path.len());
    assert forall|t: nat| t <= path.len() implies {
        &&& (#[trigger] synced.run(t)).messages.len() == 1
        &&& synced.run(t).messages[0].destination != root
    } by {
        if t == 0 {
            assert(synced.run(0) == synced);
        } else {
            lemma_run_shift(synced, (t - 1) as nat);
            assert(synced.run(t) == echoed.run((t - 1) as nat));
        }
    }
    let reported = synced.run(path.len() + 1);
    let last = reported.messages[0];
    let drained = UserInterfaceView { messages: reported.messages.drop_first(), ..reported };
    assert(drained.messages =~= Seq::<UiMessageView>::empty());
    assert(reported.nodes == echoed.nodes);
    assert(echoed.nodes[root.0 as int].parent == ui.nodes[root.0 as int].parent);
    assert(!drained.changes(last));
    assert(drained.report(last).is_none());
    let settled = synced.run(path.len() + 2);
    assert(settled == reported.step());
    assert(settled.nodes == echoed.nodes);
    lemma_shows_changed(context, ui, settled, Some(root), object, changed, path, lo, hi);
    if changed.served_by(context.property_definitions) {
        lemma_changed_is_addressable(object, changed, path);
        lemma_shown_has_no_errors(context, settled, Some(root), changed, lo, hi, 0);
        context.lemma_shown_is_bound(ui, Some(root), object, lo, hi, changed);
        lemma_run_keeps_structure(synced, path.len() + 2);
        assert(same_structure(ui, settled));
        lemma_errors_read_structure(context, ui, settled, changed, 0);
    }
}

/// The outcomes of `outcomes`, one after the other.
pub open spec fn joined(outcomes: Seq<SyncOutcome>) -> SyncOutcome
    decreases outcomes.len(),
{
    if outcomes.len() == 0 {
        SyncOutcome::empty()
    } else {
        outcomes[0].followed_by(joined(outcomes.drop_first()))
    }
}

impl InspectorContextView {
    /// The outcome of each field of `object` taken alone, in field order.
    pub open spec fn field_outcomes(self, ui: UserInterfaceView, object: ObjectView) -> Seq<
        SyncOutcome,
    > {
        Seq::new(object.fields.len(), |i: int| self.field_outcome(ui, object.property(i)))
    }

    /// Whether the field `info` fails when it is brought up to date.
    pub open spec fn fails(self, ui: UserInterfaceView, info: PropertyInfoView) -> bool {
        self.field_outcome(ui, info).errors.len() > 0
    }

    /// How many of the fields of `object` from field `i` on fail.
    pub open spec fn failures_from(self, ui: UserInterfaceView, object: ObjectView, i: int) -> nat
        decreases object.fields.len() - i,
    {
        if i < 0 || i >= object.fields.len() {
            0
        } else {
            (if self.fails(ui, object.property(i)) {
                1nat
            } else {
                0nat
            }) + self.failures_from(ui, object, i + 1)
        }
    }
}

/// The pass from field `i` on is the join of the outcomes of the fields
/// from `i` on.
pub proof fn lemma_sync_is_joined(
    context: InspectorContextView,
    ui: UserInterfaceView,
    object: ObjectView,
    i: int,
)
    requires
        0 <= i <= object.fields.len(),
    ensures
        context.sync_from(ui, object, i) == joined(
            context.field_outcomes(ui, object).subrange(i, object.fields.len() as int),
        ),
    decreases object.fields.len() - i,
{
    let all = context.field_outcomes(ui, object);
    let tail = all.subrange(i, object.fields.len() as int);
    if i < object.fields.len() {
        lemma_sync_is_joined(context, ui, object, i + 1);
        context.lemma_sync_step(ui, object, i);
        assert(tail.drop_first() =~= all.subrange(i + 1, object.fields.len() as int));
        assert(tail[0] == context.field_outcome(ui, object.property(i)));
    }
}

/// No field stands in the way of another: the outcome of a pass is the
/// outcomes of the fields joined in field order, and the outcome of a field
/// depends on that field and on nothing that its siblings hold or do. A
/// field that fails therefore takes nothing from the fields around it.
pub proof fn law_fields_are_independent(
    context: InspectorContextView,
    ui: UserInterfaceView,
    object: ObjectView,
)
    ensures
        context.sync(ui, object) == joined(context.field_outcomes(ui, object)),
{
    lemma_sync_is_joined(context, ui, object, 0);
    let all = context.field_outcomes(ui, object);
    assert(all.subrange(0, object.fields.len() as int) =~= all);
}

/// A field whose value is not of the type of its editor is a type mismatch
/// and nothing else: the error names the field and both types, and no
/// message is sent for the field.
pub proof fn law_wrong_type_is_a_mismatch(
    context: InspectorContextView,
    ui: UserInterfaceView,
    info: PropertyInfoView,
    j: int,
    definition: PropertyEditorDefinition,
)
    requires
        context.find(info.name) == Some(j),
        context.entries[j].property_editor_definition == Ok::<
            PropertyEditorDefinition,
            InspectorErrorView,
        >(definition),
        info.value.type_id() != definition.spec_value_type_id(),
    ensures
        context.field_outcome(ui, info) == SyncOutcome::single(
            None,
            Some(info.mismatch(definition.spec_value_type_id())),
        ),
{
}

/// A field fails with one error at most: the errors of a nested pass come
/// back as one group.
pub proof fn lemma_one_error_per_field(
    context: InspectorContextView,
    ui: UserInterfaceView,
    info: PropertyInfoView,
)
    ensures
        context.field_outcome(ui, info).errors.len() <= 1,
{
}

/// The errors of a pass are as many as the fields that failed: none is
/// dropped and none is counted twice.
pub proof fn law_every_failure_is_reported(
    context: InspectorContextView,
    ui: UserInterfaceView,
    object: ObjectView,
    i: int,
)
    requires
        0 <= i,
    ensures
        context.sync_from(ui, object, i).errors.len() == context.failures_from(ui, object, i),
    decreases object.fields.len() - i,
{
    if i < object.fields.len() {
        law_every_failure_is_reported(context, ui, object, i + 1);
        context.lemma_sync_step(ui, object, i);
        lemma_one_error_per_field(context, ui, object.property(i));
    }
}

/// Where exactly the fields `first` and `second` fail, the pass from field
/// `i` on gives the errors of those of the two that are still to come.
pub proof fn lemma_two_failures(
    context: InspectorContextView,
    ui: UserInterfaceView,
    object: ObjectView,
    first: int,
    second: int,
    i: int,
)
    requires
        0 <= first < second < object.fields.len(),
        0 <= i,
        forall|k: int|
            0 <= k < object.fields.len() ==> (#[trigger] context.fails(ui, object.property(k)) <==> k
                == first || k == second),
    ensures
        context.sync_from(ui, object, i).errors == (if i <= first {
            seq![
                context.field_outcome(ui, object.property(first)).errors[0],
                context.field_outcome(ui, object.property(second)).errors[0],
            ]
        } else if i <= second {
            seq![context.field_outcome(ui, object.property(second)).errors[0]]
        } else {
            Seq::<InspectorErrorView>::empty()
        }),
    decreases object.fields.len() - i,
{
    if i < object.fields.len() {
        lemma_two_failures(context, ui, object, first, second, i + 1);
        context.lemma_sync_step(ui, object, i);
        lemma_one_error_per_field(context, ui, object.property(i));
        let head = context.field_outcome(ui, object.property(i));
        let rest = context.sync_from(ui, object, i + 1);
        assert(context.fails(ui, object.property(i)) <==> i == first || i == second);
        if i == first {
            assert(head.errors =~= seq![head.errors[0]]);
            assert(head.errors + rest.errors =~= seq![
                context.field_outcome(ui, object.property(first)).errors[0],
                context.field_outcome(ui, object.property(second)).errors[0],
            ]);
        } else if i == second {
            assert(head.errors =~= seq![head.errors[0]]);
            assert(head.errors + rest.errors =~= seq![head.errors[0]]);
        } else {
            assert(head.errors + rest.errors =~= rest.errors);
        }
    }
}

/// Two failures make two errors. Where exactly two fields of an object
/// fail, the pass gives exactly their two errors, in field order; and the
/// composite editor of a field that holds the object reports one group that
/// holds exactly those two.
pub proof fn law_two_failures_make_a_group_of_two(
    context: InspectorContextView,
    ui: UserInterfaceView,
    object: ObjectView,
    first: int,
    second: int,
)
    requires
        0 <= first < second < object.fields.len(),
        forall|k: int|
            0 <= k < object.fields.len() ==> (#[trigger] context.fails(ui, object.property(k)) <==> k
                == first || k == second),
    ensures
        context.sync(ui, object).errors == seq![
            context.field_outcome(ui, object.property(first)).errors[0],
            context.field_outcome(ui, object.property(second)).errors[0],
        ],
        context.sync(ui, object).grouped().errors == seq![
            InspectorErrorView::Group(
                seq![
                    context.field_outcome(ui, object.property(first)).errors[0],
                    context.field_outcome(ui, object.property(second)).errors[0],
                ],
            ),
        ],
{
    lemma_two_failures(context, ui, object, first, second, 0);
}

/// Bindings that are bound for an object in an interface are bound for it
/// in every interface of the same structure.
pub proof fn lemma_bound_follows_structure(
    context: InspectorContextView,
    ui: UserInterfaceView,
    other: UserInterfaceView,
    object: ObjectView,
)
    requires
        context.bound_for(ui, object),
        same_structure(ui, other),
    ensures
        context.bound_for(other, object),
    decreases object,
{
    assert forall|i: int| 0 <= i < object.fields.len() implies ((
    #[trigger] object.fields[i]).value matches ValueView::Object(inner) ==> (context.nested_editor(
        object.property(i),
    ) matches Some(editor) ==> {
        &&& other.contains(editor)
        &&& other.node(editor).widget is Inspector
        &&& other.context_at(editor).bound_for(other, inner)
    })) by {
        if let ValueView::Object(inner) = object.fields[i].value {
            if let Some(editor) = context.nested_editor(object.property(i)) {
                assert(other.nodes[editor.0 as int].widget == ui.nodes[editor.0 as int].widget);
                lemma_bound_follows_structure(ui.context_at(editor), ui, other, inner);
            }
        }
    }
}

/// Delivering messages keeps the structure of an interface: no widget comes
/// or goes, none moves to another widget, and no inspector changes.
pub proof fn lemma_run_keeps_structure(ui: UserInterfaceView, steps: nat)
    ensures
        same_structure(ui, ui.run(steps)),
    decreases steps,
{
    if steps > 0 {
        lemma_run_keeps_structure(ui, (steps - 1) as nat);
        let before = ui.run((steps - 1) as nat);
        let after = before.step();
        assert(ui.run(steps) == after);
        assert forall|k: int| 0 <= k < ui.nodes.len() implies {
            &&& (#[trigger] after.nodes[k]).parent == ui.nodes[k].parent
            &&& (ui.nodes[k].widget is Inspector ==> after.nodes[k].widget == ui.nodes[k].widget)
        } by {
            assert(before.nodes[k].parent == ui.nodes[k].parent);
        }
    }
}

/// What was built can be brought up to date at any later time, with any
/// object: bindings that show an object are bound for every object, and
/// stay so whatever is sent and delivered afterwards.
pub proof fn law_built_bindings_stay_bound(
    context: InspectorContextView,
    ui: UserInterfaceView,
    host: Option<Handle>,
    shown: ObjectView,
    lo: int,
    hi: int,
    object: ObjectView,
    sent: Seq<UiMessageView>,
    steps: nat,
)
    requires
        context.shows(ui, host, shown, lo, hi),
    ensures
        context.bound_for(ui, object),
        context.bound_for(ui.send_all(sent).run(steps), object),
{
    context.lemma_shown_is_bound(ui, host, shown, lo, hi, object);
    context.lemma_bound_reads_widgets(ui, ui.send_all(sent), object);
    lemma_run_keeps_structure(ui.send_all(sent), steps);
    lemma_bound_follows_structure(context, ui.send_all(sent), ui.send_all(sent).run(steps), object);
}

/// Rebuilding one inspector takes the update from no other. The interface
/// `after` is `ui` with another object attached to the inspector `rebuilt`:
/// widgets were added at the end, the inspector hosts new bindings that
/// show the attached object, and every other widget is as it was. Then
/// bindings that were bound for an object in `ui` are bound for it in
/// `after`, wherever in the pool the widgets stand; and the new bindings of
/// `rebuilt` are bound for every object.
pub proof fn law_rebuilt_can_be_updated(
    context: InspectorContextView,
    ui: UserInterfaceView,
    after: UserInterfaceView,
    rebuilt: Handle,
    attached: ObjectView,
    lo: int,
    hi: int,
    object: ObjectView,
)
    requires
        context.bound_for(ui, object),
        ui.contains(rebuilt),
        ui.nodes.len() <= after.nodes.len(),
        forall|k: int| 0 <= k < ui.nodes.len() && k != rebuilt.0 ==> after.nodes[k] == ui.nodes[k],
        after.node(rebuilt).widget is Inspector,
        after.context_at(rebuilt).shows(after, Some(rebuilt), attached, lo, hi),
    ensures
        context.bound_for(after, object),
        after.context_at(rebuilt).bound_for(after, object),
    decreases object,
{
    after.context_at(rebuilt).lemma_shown_is_bound(after, Some(rebuilt), attached, lo, hi, object);
    assert forall|i: int| 0 <= i < object.fields.len() implies ((
    #[trigger] object.fields[i]).value matches ValueView::Object(inner) ==> (context.nested_editor(
        object.property(i),
    ) matches Some(editor) ==> {
        &&& after.contains(editor)
        &&& after.node(editor).widget is Inspector
        &&& after.context_at(editor).bound_for(after, inner)
    })) by {
        if let ValueView::Object(inner) = object.fields[i].value {
            if let Some(editor) = context.nested_editor(object.property(i)) {
                if editor == rebuilt {
                    after.context_at(rebuilt).lemma_shown_is_bound(
                        after,
                        Some(rebuilt),
                        attached,
                        lo,
                        hi,
                        inner,
                    );
                } else {
                    assert(after.nodes[editor.0 as int] == ui.nodes[editor.0 as int]);
                    law_rebuilt_can_be_updated(
                        ui.context_at(editor),
                        ui,
                        after,
                        rebuilt,
                        attached,
                        lo,
                        hi,
                        inner,
                    );
                }
            }
        }
    }
}

/// Building treats every field on its own: where bindings show an object,
/// there is a binding for each field, and whether a field has an editor, and
/// which, depends on the registry and on the type of that field's value
/// alone. A field that the registry has nothing for, or that its definition
/// refuses, therefore takes no editor from a sibling.
pub proof fn law_each_field_is_resolved_alone(
    context: InspectorContextView,
    ui: UserInterfaceView,
    host: Option<Handle>,
    object: ObjectView,
    lo: int,
    hi: int,
    i: int,
)
    requires
        context.shows(ui, host, object, lo, hi),
        0 <= i < object.fields.len(),
    ensures
        context.entries.len() == object.fields.len(),
        context.entries[i].property_name == object.fields[i].name,
        context.entries[i].property_editor_definition == resolve(
            context.property_definitions,
            object.property(i),
        ),
        !context.property_definitions.contains_key(object.fields[i].value.type_id())
            ==> context.entries[i].property_editor_definition == Err::<
            PropertyEditorDefinition,
            InspectorErrorView,
        >(
            InspectorErrorView::MissingEditor {
                property_name: object.fields[i].name,
                type_id: object.fields[i].value.type_id(),
            },
        ),
{
    assert(context.binds(ui, host, object, i, lo, hi));
}

/// An addressable object with one leaf changed is addressable.
pub proof fn lemma_changed_is_addressable(object: ObjectView, changed: ObjectView, path: Seq<int>)
    requires
        object.addressable(),
        object.differs_at(changed, path),
    ensures
        changed.addressable(),
    decreases path.len(),
{
    let p = path[0];
    assert forall|i: int, j: int| 0 <= i < j < changed.fields.len() implies changed.fields[i].name
        != changed.fields[j].name by {
        assert(changed.fields[i].name == object.fields[i].name);
        assert(changed.fields[j].name == object.fields[j].name);
    }
    assert forall|i: int| 0 <= i < changed.fields.len() implies (
    #[trigger] changed.fields[i].value matches ValueView::Object(inner) ==> inner.addressable()) by {
        if i != p {
            assert(changed.fields[i] == object.fields[i]);
            assert(object.fields[i].value matches ValueView::Object(inner) ==> inner.addressable());
        } else if path.len() > 1 {
            assert(object.fields[i].value matches ValueView::Object(inner) ==> inner.addressable());
            lemma_changed_is_addressable(
                object.fields[i].value->Object_0,
                changed.fields[i].value->Object_0,
                path.drop_first(),
            );
        }
    }
}

/// An edit made in the interface is not sent back to it. The bindings show
/// `object`, and the editor of one leaf has come to show another value, as
/// it does when the user edits it: `edited` is `ui` with that one editor
/// changed. When the owner has applied the change to its object and brings
/// the bindings up to date with it, the pass sends no message: the editor
/// is not told what it already shows.
pub proof fn law_edit_is_not_echoed(
    context: InspectorContextView,
    ui: UserInterfaceView,
    edited: UserInterfaceView,
    host: Option<Handle>,
    object: ObjectView,
    changed: ObjectView,
    path: Seq<int>,
    lo: int,
    hi: int,
)
    requires
        context.shows(ui, host, object, lo, hi),
        object.addressable(),
        object.differs_at(changed, path),
        context.edits(ui, path),
        edited.nodes == ui.nodes.update(
            context.editor_at(ui, path).0 as int,
            UiNodeView {
                widget: WidgetView::Editor(changed.leaf(path)),
                ..ui.nodes[context.editor_at(ui, path).0 as int]
            },
        ),
    ensures
        context.shows(edited, host, changed, lo, hi),
        context.sync(edited, changed).messages.len() == 0,
{
    lemma_leaf_in_range(context, ui, host, object, changed, path, lo, hi);
    context.lemma_floor(ui, host, object, lo, hi, object.fields.len() as int, path[0]);
    lemma_shows_changed(context, ui, edited, host, object, changed, path, lo, hi);
    lemma_changed_is_addressable(object, changed, path);
    lemma_shown_is_silent(context, edited, host, changed, lo, hi, 0);
}

/// Which fields fail in a pass depends on the structure of the interface
/// alone, not on what the leaf editors show nor on what waits in the queue.
pub proof fn lemma_errors_read_structure(
    context: InspectorContextView,
    ui: UserInterfaceView,
    other: UserInterfaceView,
    object: ObjectView,
    i: int,
)
    requires
        same_structure(ui, other),
        context.bound_for(ui, object),
        0 <= i,
    ensures
        context.sync_from(ui, object, i).errors == context.sync_from(other, object, i).errors,
    decreases object, object.fields.len() - i,
{
    if i < object.fields.len() {
        lemma_errors_read_structure(context, ui, other, object, i + 1);
        context.lemma_sync_step(ui, object, i);
        context.lemma_sync_step(other, object, i);
        let info = object.property(i);
        if let ValueView::Object(inner) = object.fields[i].value {
            if let Some(editor) = context.nested_editor(info) {
                assert(other.nodes[editor.0 as int].widget == ui.nodes[editor.0 as int].widget);
                lemma_errors_read_structure(ui.context_at(editor), ui, other, inner, 0);
            }
        }
    }
}

/// The same at the composite editor. The nested inspector `instance` is
/// part of no widget and its bindings show `object`; the field handed to
/// the editor holds `changed`, which is `object` with one leaf changed, and
/// every field on the way to the leaf has an editor. Then bringing the
/// editor up to date sends exactly one message, and after one step per
/// level and two more the inspector has reported exactly one change record,
/// with the whole path to the leaf, and the queue is empty. Nothing is
/// reported for any other field, and every other widget is as it was. Where
/// the registry has an editor for every field, there is no error.
pub proof fn law_composite_update_reports_once(
    definition: InspectablePropertyEditorDefinition,
    ui: UserInterfaceView,
    instance: Handle,
    info: PropertyInfoView,
    object: ObjectView,
    changed: ObjectView,
    path: Seq<int>,
    lo: int,
    hi: int,
)
    requires
        ui.messages.len() == 0,
        ui.contains(instance),
        ui.node(instance).parent is None,
        ui.node(instance).widget is Inspector,
        ui.context_at(instance).shows(ui, Some(instance), object, lo, hi),
        object.type_id == definition.type_id,
        object.addressable(),
        info.value == ValueView::Object(changed),
        object.differs_at(changed, path),
        ui.context_at(instance).edits(ui, path),
    ensures
        definition.can_update(ui, info, instance),
        definition.outcome(ui, info, instance).messages == seq![
            instruction(
                ui.context_at(instance).editor_at(ui, path),
                changed.leaf(path),
                ui.context_at(instance).sync_flag,
            ),
        ],
        changed.served_by(ui.context_at(instance).property_definitions) ==> definition.outcome(
            ui,
            info,
            instance,
        ).errors.len() == 0,
        forall|t: nat|
            t <= path.len() ==> {
                &&& (#[trigger] ui.send_all(definition.outcome(ui, info, instance).messages).run(
                    t,
                )).messages.len() == 1
                &&& ui.send_all(definition.outcome(ui, info, instance).messages).run(
                    t,
                ).messages[0].destination != instance
            },
        ui.send_all(definition.outcome(ui, info, instance).messages).run(
            path.len() + 1,
        ).messages == seq![
            report_of(instance, changed.change_at(path), ui.context_at(instance).sync_flag),
        ],
        ui.send_all(definition.outcome(ui, info, instance).messages).run(
            path.len() + 2,
        ).messages.len() == 0,
        ui.send_all(definition.outcome(ui, info, instance).messages).run(path.len() + 2).nodes
            == ui.nodes.update(
            ui.context_at(instance).editor_at(ui, path).0 as int,
            UiNodeView {
                widget: WidgetView::Editor(changed.leaf(path)),
                ..ui.nodes[ui.context_at(instance).editor_at(ui, path).0 as int]
            },
        ),
{
    let context = ui.context_at(instance);
    law_single_change_is_reported_once(context, ui, instance, object, changed, path, lo, hi);
    context.lemma_shown_is_bound(ui, Some(instance), object, lo, hi, changed);
    assert(definition.outcome(ui, info, instance) == context.sync(ui, changed).grouped());
}

} // verus!
