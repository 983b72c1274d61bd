//! A second pass repeats the first: once the messages of a pass have been
//! delivered, the same pass over the same object sends nothing and fails
//! where the first one failed.

use vstd::prelude::*;
use crate::inspector::context::InspectorContextView;
use crate::inspector::editors::inspectable::InspectablePropertyEditorDefinition;
use crate::inspector::editors::PropertyEditorDefinition;
use crate::laws::lemma_bound_follows_structure;
use crate::laws::lemma_errors_read_structure;
use crate::laws::lemma_run_keeps_structure;
use crate::laws::same_structure;
use crate::message::MessageDirection;
use crate::message::UiMessageDataView;
use crate::message::UiMessageView;
use crate::reflect::ObjectView;
use crate::reflect::PrimitiveView;
use crate::reflect::PropertyInfoView;
use crate::reflect::ValueView;
use crate::ui::Handle;
use crate::ui::UserInterfaceView;
use crate::ui::WidgetView;

verus! {

/// What the widget `widget` at the place `place` of the pool is once `message` has been
/// delivered: a leaf editor that is told to show another value of its kind
/// shows it, and nothing else changes a widget.
pub open spec fn told(widget: WidgetView, place: int, message: UiMessageView) -> WidgetView {
    match (widget, message.data) {
        (WidgetView::Editor(shown), UiMessageDataView::Value(value)) if message.destination.0
            == place && message.direction == MessageDirection::ToWidget && value.kind()
            == shown.kind() && value != shown => WidgetView::Editor(value),
        _ => widget,
    }
}

/// What the widget `widget` at the place `place` of the pool is once `messages` have been
/// delivered in order.
pub open spec fn settled(widget: WidgetView, place: int, messages: Seq<UiMessageView>) -> WidgetView
    decreases messages.len(),
{
    if messages.len() == 0 {
        widget
    } else {
        told(settled(widget, place, messages.drop_last()), place, messages.last())
    }
}

/// Delivering one message tells every widget that message, sends only
/// reports, and moves no widget.
pub proof fn lemma_deliver_tells(ui: UserInterfaceView, message: UiMessageView)
    ensures
        ui.deliver(message).nodes.len() == ui.nodes.len(),
        forall|k: int|
            0 <= k < ui.nodes.len() ==> {
                &&& (#[trigger] ui.deliver(message).nodes[k]).widget == told(
                    ui.nodes[k].widget,
                    k,
                    message,
                )
                &&& ui.deliver(message).nodes[k].parent == ui.nodes[k].parent
            },
        ui.deliver(message).messages.len() >= ui.messages.len(),
        forall|t: int|
            0 <= t < ui.messages.len() ==> ui.deliver(message).messages[t] == ui.messages[t],
        forall|t: int|
            ui.messages.len() <= t < ui.deliver(message).messages.len() ==> (
            #[trigger] ui.deliver(message).messages[t]).direction == MessageDirection::FromWidget,
{
}

/// A widget that only hears reports stays as it is.
pub proof fn lemma_reports_tell_nothing(
    widget: WidgetView,
    place: int,
    message: UiMessageView,
)
    requires
        message.direction == MessageDirection::FromWidget,
    ensures
        told(widget, place, message) == widget,
{
}

/// After `n` steps every widget has been told the first `n` messages of the
/// queue, or all of them if they are fewer, and only reports have joined
/// the queue.
pub proof fn lemma_run_settles(ui: UserInterfaceView, n: nat)
    ensures
        ui.run(n).nodes.len() == ui.nodes.len(),
        forall|k: int|
            0 <= k < ui.nodes.len() ==> (#[trigger] ui.run(n).nodes[k]).widget == settled(
                ui.nodes[k].widget,
                k,
                ui.messages.subrange(0, if n <= ui.messages.len() {
                    n as int
                } else {
                    ui.messages.len() as int
                }),
            ),
        n <= ui.messages.len() ==> ui.run(n).messages.len() >= ui.messages.len() - n,
        forall|t: int|
            0 <= t < ui.messages.len() - n ==> ui.run(n).messages[t] == ui.messages[n + t],
        forall|t: int|
            0 <= t < ui.run(n).messages.len() && ui.messages.len() - n <= t ==> (
            #[trigger] ui.run(n).messages[t]).direction == MessageDirection::FromWidget,
    decreases n,
{
    let queue = ui.messages;
    if n == 0 {
        assert(ui.run(0) == ui);
        assert(queue.subrange(0, 0) =~= Seq::<UiMessageView>::empty());
    } else {
        let before = ui.run((n - 1) as nat);
        lemma_run_settles(ui, (n - 1) as nat);
        assert(ui.run(n) == before.step());
        if before.messages.len() > 0 {
            let head = before.messages[0];
            let popped = UserInterfaceView { messages: before.messages.drop_first(), ..before };
            lemma_deliver_tells(popped, head);
            let after = popped.deliver(head);
            assert(ui.run(n) == after);
            if n <= queue.len() {
                assert(head == queue[n - 1]);
                assert(queue.subrange(0, n as int).drop_last() =~= queue.subrange(0, n - 1));
                assert(queue.subrange(0, n as int).last() == head);
            } else {
                assert(head.direction == MessageDirection::FromWidget);
            }
            assert forall|k: int| 0 <= k < ui.nodes.len() implies (#[trigger] after.nodes[k]).widget
                == settled(
                ui.nodes[k].widget,
                k,
                queue.subrange(0, if n <= queue.len() {
                    n as int
                } else {
                    queue.len() as int
                }),
            ) by {
                assert(after.nodes[k].widget == told(before.nodes[k].widget, k, head));
                if n > queue.len() {
                    lemma_reports_tell_nothing(before.nodes[k].widget, k, head);
                }
            }
            assert forall|t: int| 0 <= t < queue.len() - n implies after.messages[t] == queue[n
                + t] by {
                assert(popped.messages[t] == before.messages[t + 1]);
            }
            assert forall|t: int|
                0 <= t < after.messages.len() && queue.len() - n <= t implies (
            #[trigger] after.messages[t]).direction == MessageDirection::FromWidget by {
                if t < popped.messages.len() {
                    assert(popped.messages[t] == before.messages[t + 1]);
                }
            }
        } else {
            assert(ui.run(n) == before);
        }
    }
}

/// A widget that is no leaf editor stays as it is whatever is delivered,
/// and a leaf editor stays a leaf editor of its kind.
pub proof fn lemma_settled_keeps_kind(
    widget: WidgetView,
    place: int,
    messages: Seq<UiMessageView>,
)
    ensures
        !(widget is Editor) ==> settled(widget, place, messages) == widget,
        widget matches WidgetView::Editor(shown) ==> (settled(
            widget,
            place,
            messages,
        ) matches WidgetView::Editor(value) && value.kind() == shown.kind()),
    decreases messages.len(),
{
    if messages.len() > 0 {
        lemma_settled_keeps_kind(widget, place, messages.drop_last());
    }
}

/// A leaf editor that is only ever told one value shows that value once it
/// has been told, and what it showed before if nothing was addressed to it.
pub proof fn lemma_settled_on_one_value(
    shown: PrimitiveView,
    place: int,
    messages: Seq<UiMessageView>,
    value: PrimitiveView,
)
    requires
        shown.kind() == value.kind(),
        forall|t: int|
            0 <= t < messages.len() && (#[trigger] messages[t]).destination.0 == place ==> {
                &&& messages[t].direction == MessageDirection::ToWidget
                &&& messages[t].data == UiMessageDataView::Value(value)
            },
    ensures
        (forall|t: int| 0 <= t < messages.len() ==> (#[trigger] messages[t]).destination.0 != place)
            ==> settled(WidgetView::Editor(shown), place, messages) == WidgetView::Editor(shown),
        (exists|t: int| 0 <= t < messages.len() && (#[trigger] messages[t]).destination.0 == place)
            ==> settled(WidgetView::Editor(shown), place, messages) == WidgetView::Editor(value),
        settled(WidgetView::Editor(shown), place, messages) == WidgetView::Editor(shown)
            || settled(WidgetView::Editor(shown), place, messages) == WidgetView::Editor(value),
    decreases messages.len(),
{
    if messages.len() > 0 {
        let earlier = messages.drop_last();
        let last = messages.last();
        assert forall|t: int|
            0 <= t < earlier.len() && (#[trigger] earlier[t]).destination.0 == place implies {
            &&& earlier[t].direction == MessageDirection::ToWidget
            &&& earlier[t].data == UiMessageDataView::Value(value)
        } by {
            assert(earlier[t] == messages[t]);
        }
        lemma_settled_on_one_value(shown, place, earlier, value);
        assert(last == messages[messages.len() - 1]);
        if last.destination.0 == place {
        } else {
            if exists|t: int| 0 <= t < messages.len() && (#[trigger] messages[t]).destination.0 == place {
                let t = choose|t: int|
                    0 <= t < messages.len() && (#[trigger] messages[t]).destination.0 == place;
                assert(earlier[t] == messages[t]);
            }
        }
        if forall|t: int| 0 <= t < messages.len() ==> (#[trigger] messages[t]).destination.0 != place {
            assert forall|t: int| 0 <= t < earlier.len() implies (#[trigger] earlier[t]).destination.0
                != place by {
                assert(earlier[t] == messages[t]);
            }
        }
    }
}

/// A message is among two lists joined exactly when it is in one of them.
pub proof fn lemma_contains_joined(
    first: Seq<UiMessageView>,
    second: Seq<UiMessageView>,
    message: UiMessageView,
)
    ensures
        (first + second).contains(message) <==> first.contains(message) || second.contains(
            message,
        ),
{
    let both = first + second;
    if both.contains(message) {
        let t = choose|t: int| 0 <= t < both.len() && both[t] == message;
        if t < first.len() {
            assert(first[t] == message);
        } else {
            assert(second[t - first.len()] == message);
        }
    }
    if first.contains(message) {
        let t = choose|t: int| 0 <= t < first.len() && first[t] == message;
        assert(both[t] == message);
    }
    if second.contains(message) {
        let t = choose|t: int| 0 <= t < second.len() && second[t] == message;
        assert(both[t + first.len()] == message);
    }
}

impl InspectorContextView {
    /// Whether field `f` of `object` sends `message` in a pass.
    pub open spec fn field_sends(
        self,
        ui: UserInterfaceView,
        object: ObjectView,
        f: int,
        message: UiMessageView,
    ) -> bool {
        self.field_outcome(ui, object.property(f)).messages.contains(message)
    }
}

/// A message of a pass is the message of one of its fields.
pub proof fn lemma_sent_by_some_field(
    context: InspectorContextView,
    ui: UserInterfaceView,
    object: ObjectView,
    i: int,
    message: UiMessageView,
)
    requires
        0 <= i,
        context.sync_from(ui, object, i).messages.contains(message),
    ensures
        exists|f: int|
            i <= f < object.fields.len() && #[trigger] context.field_sends(ui, object, f, message),
    decreases object.fields.len() - i,
{
    if i < object.fields.len() {
        context.lemma_sync_step(ui, object, i);
        lemma_contains_joined(
            context.field_outcome(ui, object.property(i)).messages,
            context.sync_from(ui, object, i + 1).messages,
            message,
        );
        if context.field_sends(ui, object, i, message) {
        } else {
            lemma_sent_by_some_field(context, ui, object, i + 1, message);
            let f = choose|f: int|
                i + 1 <= f < object.fields.len() && #[trigger] context.field_sends(
                    ui,
                    object,
                    f,
                    message,
                );
            assert(context.field_sends(ui, object, f, message));
        }
    } else {
        assert(context.sync_from(ui, object, i).messages =~= Seq::<UiMessageView>::empty());
    }
}

/// The message of a field is a message of the pass.
pub proof fn lemma_field_message_is_sent(
    context: InspectorContextView,
    ui: UserInterfaceView,
    object: ObjectView,
    i: int,
    f: int,
    message: UiMessageView,
)
    requires
        0 <= i <= f < object.fields.len(),
        context.field_sends(ui, object, f, message),
    ensures
        context.sync_from(ui, object, i).messages.contains(message),
    decreases f - i,
{
    context.lemma_sync_step(ui, object, i);
    lemma_contains_joined(
        context.field_outcome(ui, object.property(i)).messages,
        context.sync_from(ui, object, i + 1).messages,
        message,
    );
    if i < f {
        lemma_field_message_is_sent(context, ui, object, i + 1, f, message);
    }
}

/// Where bindings show an object, a pass over any object sends its messages
/// to widgets of the bindings: every message goes to a handle of the range
/// that the bindings take up.
pub proof fn lemma_messages_in_range(
    context: InspectorContextView,
    ui: UserInterfaceView,
    host: Option<Handle>,
    shown: ObjectView,
    lo: int,
    hi: int,
    object: ObjectView,
    message: UiMessageView,
)
    requires
        context.shows(ui, host, shown, lo, hi),
        context.sync(ui, object).messages.contains(message),
    ensures
        lo <= message.destination.0 < hi,
    decreases object, 1nat,
{
    lemma_sent_by_some_field(context, ui, object, 0, message);
    let f = choose|f: int|
        0 <= f < object.fields.len() && #[trigger] context.field_sends(ui, object, f, message);
    lemma_field_messages_in_range(context, ui, host, shown, lo, hi, object, f, message);
    let j = context.find(object.fields[f].name).unwrap();
    context.lemma_floor(ui, host, shown, lo, hi, shown.fields.len() as int, j);
}

/// Where bindings show an object, the messages of a field in a pass over
/// any object go to the range of handles of the binding that the field's
/// name finds.
pub proof fn lemma_field_messages_in_range(
    context: InspectorContextView,
    ui: UserInterfaceView,
    host: Option<Handle>,
    shown: ObjectView,
    lo: int,
    hi: int,
    object: ObjectView,
    f: int,
    message: UiMessageView,
)
    requires
        context.shows(ui, host, shown, lo, hi),
        0 <= f < object.fields.len(),
        context.field_sends(ui, object, f, message),
    ensures
        context.find(object.fields[f].name) matches Some(j) && 0 <= j < shown.fields.len()
            && context.floor(j, lo) <= message.destination.0
            <= context.entries[j].property_editor.0,
    decreases object, 0nat,
{
    let info = object.property(f);
    let sent = context.field_outcome(ui, info).messages;
    let t = choose|t: int| 0 <= t < sent.len() && sent[t] == message;
    match context.find(info.name) {
        Some(j) => {
            context.lemma_found(info.name, 0);
            assert(context.binds(ui, host, shown, j, lo, hi));
            let editor = context.entries[j].property_editor;
            if let ValueView::Object(inner) = object.fields[f].value {
                if context.nested_editor(info).is_some() {
                    let nested = ui.context_at(editor);
                    assert(nested.sync(ui, inner).messages.contains(message));
                    lemma_messages_in_range(
                        nested,
                        ui,
                        Some(editor),
                        shown.fields[j].value->Object_0,
                        context.floor(j, lo),
                        editor.0 as int,
                        inner,
                        message,
                    );
                }
            }
        },
        None => {
        },
    }
}

/// Whether the widgets of `after` at the handles from `lo` up to `hi` are
/// those of `ui` once `all` has been delivered.
pub open spec fn delivered_in(
    ui: UserInterfaceView,
    after: UserInterfaceView,
    all: Seq<UiMessageView>,
    lo: int,
    hi: int,
) -> bool {
    &&& after.nodes.len() == ui.nodes.len()
    &&& forall|k: int|
        lo <= k < hi ==> (#[trigger] after.nodes[k]).widget == settled(ui.nodes[k].widget, k, all)
}

/// Whether the messages of `all` that go to the handles from `lo` up to
/// `hi` are the messages of the pass of `context` over `object`.
pub open spec fn accounts_for(
    context: InspectorContextView,
    ui: UserInterfaceView,
    object: ObjectView,
    all: Seq<UiMessageView>,
    lo: int,
    hi: int,
) -> bool {
    &&& forall|m: UiMessageView|
        #[trigger] all.contains(m) && lo <= m.destination.0 < hi ==> context.sync(
            ui,
            object,
        ).messages.contains(m)
    &&& forall|m: UiMessageView|
        #[trigger] context.sync(ui, object).messages.contains(m) ==> all.contains(m)
}

/// A message that goes to the range of a binding was sent by the field
/// whose name finds that binding.
pub proof fn lemma_only_own_field(
    context: InspectorContextView,
    ui: UserInterfaceView,
    host: Option<Handle>,
    shown: ObjectView,
    lo: int,
    hi: int,
    object: ObjectView,
    all: Seq<UiMessageView>,
    f: int,
    j: int,
    message: UiMessageView,
)
    requires
        context.shows(ui, host, shown, lo, hi),
        object.addressable(),
        accounts_for(context, ui, object, all, lo, hi),
        0 <= f < object.fields.len(),
        context.find(object.fields[f].name) == Some(j),
        all.contains(message),
        context.floor(j, lo) <= message.destination.0 <= context.entries[j].property_editor.0,
    ensures
        context.field_sends(ui, object, f, message),
{
    let n = shown.fields.len() as int;
    context.lemma_found(object.fields[f].name, 0);
    context.lemma_floor(ui, host, shown, lo, hi, n, j);
    assert(context.sync(ui, object).messages.contains(message));
    lemma_sent_by_some_field(context, ui, object, 0, message);
    let g = choose|g: int|
        0 <= g < object.fields.len() && #[trigger] context.field_sends(ui, object, g, message);
    lemma_field_messages_in_range(context, ui, host, shown, lo, hi, object, g, message);
    let k = context.find(object.fields[g].name).unwrap();
    context.lemma_found(object.fields[g].name, 0);
    context.lemma_floor(ui, host, shown, lo, hi, n, k);
    if k < j {
        context.lemma_rising(ui, host, shown, lo, hi, n, k, j);
    } else if j < k {
        context.lemma_rising(ui, host, shown, lo, hi, n, j, k);
    }
    assert(k == j);
    assert(object.fields[g].name == object.fields[f].name);
    if g < f {
        assert(object.fields[g].name != object.fields[f].name);
    } else if f < g {
        assert(object.fields[f].name != object.fields[g].name);
    }
}

/// Once the messages of a pass have been delivered, the same pass from any
/// field on sends nothing.
pub proof fn lemma_second_pass_is_silent(
    context: InspectorContextView,
    ui: UserInterfaceView,
    after: UserInterfaceView,
    host: Option<Handle>,
    shown: ObjectView,
    lo: int,
    hi: int,
    object: ObjectView,
    all: Seq<UiMessageView>,
    i: int,
)
    requires
        context.shows(ui, host, shown, lo, hi),
        object.addressable(),
        delivered_in(ui, after, all, lo, hi),
        accounts_for(context, ui, object, all, lo, hi),
        0 <= i,
    ensures
        context.sync_from(after, object, i).messages == Seq::<UiMessageView>::empty(),
    decreases object, object.fields.len() - i,
{
    if i < object.fields.len() {
        lemma_second_pass_is_silent(context, ui, after, host, shown, lo, hi, object, all, i + 1);
        lemma_second_pass_field_is_silent(context, ui, after, host, shown, lo, hi, object, all, i);
        context.lemma_sync_step(after, object, i);
        assert(context.sync_from(after, object, i).messages =~= Seq::<UiMessageView>::empty());
    }
}

/// Once the messages of a pass have been delivered, no field of the same
/// pass has anything to send.
pub proof fn lemma_second_pass_field_is_silent(
    context: InspectorContextView,
    ui: UserInterfaceView,
    after: UserInterfaceView,
    host: Option<Handle>,
    shown: ObjectView,
    lo: int,
    hi: int,
    object: ObjectView,
    all: Seq<UiMessageView>,
    f: int,
)
    requires
        context.shows(ui, host, shown, lo, hi),
        object.addressable(),
        delivered_in(ui, after, all, lo, hi),
        accounts_for(context, ui, object, all, lo, hi),
        0 <= f < object.fields.len(),
    ensures
        context.field_outcome(after, object.property(f)).messages == Seq::<UiMessageView>::empty(),
    decreases object, 0nat,
{
    let info = object.property(f);
    let n = shown.fields.len() as int;
    if let Some(j) = context.find(info.name) {
        context.lemma_found(info.name, 0);
        assert(context.binds(ui, host, shown, j, lo, hi));
        context.lemma_floor(ui, host, shown, lo, hi, n, j);
        let editor = context.entries[j].property_editor;
        let place = editor.0 as int;
        assert(after.nodes[place].widget == settled(ui.nodes[place].widget, place, all));
        match context.entries[j].property_editor_definition {
            Ok(PropertyEditorDefinition::Primitive(definition)) => {
                if let ValueView::Primitive(value) = info.value {
                    if value.kind() == definition.kind {
                        let was = shown.fields[j].value->Primitive_0;
                        let told_value = UiMessageView {
                            destination: editor,
                            direction: MessageDirection::ToWidget,
                            data: UiMessageDataView::Value(value),
                            flags: context.sync_flag,
                        };
                        assert forall|t: int|
                            0 <= t < all.len() && (#[trigger] all[t]).destination.0
                                == place implies {
                            &&& all[t].direction == MessageDirection::ToWidget
                            &&& all[t].data == UiMessageDataView::Value(value)
                        } by {
                            assert(all.contains(all[t]));
                            lemma_only_own_field(
                                context,
                                ui,
                                host,
                                shown,
                                lo,
                                hi,
                                object,
                                all,
                                f,
                                j,
                                all[t],
                            );
                            let sent = context.field_outcome(ui, info).messages;
                            let s = choose|s: int| 0 <= s < sent.len() && sent[s] == all[t];
                            assert(sent[s] == told_value);
                        }
                        lemma_settled_on_one_value(was, place, all, value);
                        if after.nodes[place].widget != WidgetView::Editor(value) {
                            let sent = context.field_outcome(ui, info).messages;
                            assert(sent =~= seq![told_value]);
                            assert(sent[0] == told_value);
                            assert(context.field_sends(ui, object, f, told_value));
                            lemma_field_message_is_sent(context, ui, object, 0, f, told_value);
                            assert(context.sync(ui, object).messages.contains(told_value));
                            assert(all.contains(told_value));
                            let t = choose|t: int| 0 <= t < all.len() && all[t] == told_value;
                            assert(all[t].destination.0 == place);
                            assert(false);
                        }
                    }
                }
            },
            Ok(PropertyEditorDefinition::Inspectable(definition)) => {
                if let ValueView::Object(inner) = info.value {
                    if inner.type_id == definition.type_id {
                        let nested = ui.context_at(editor);
                        let below = context.floor(j, lo);
                        lemma_settled_keeps_kind(ui.nodes[place].widget, place, all);
                        assert(after.context_at(editor) == nested);
                        assert(context.nested_editor(info) == Some(editor));
                        assert forall|m: UiMessageView|
                            #[trigger] all.contains(m) && below <= m.destination.0
                                < place implies nested.sync(ui, inner).messages.contains(m) by {
                            lemma_only_own_field(
                                context,
                                ui,
                                host,
                                shown,
                                lo,
                                hi,
                                object,
                                all,
                                f,
                                j,
                                m,
                            );
                        }
                        assert forall|m: UiMessageView| #[trigger]
                            nested.sync(ui, inner).messages.contains(m) implies all.contains(m) by {
                            assert(context.field_sends(ui, object, f, m));
                            lemma_field_message_is_sent(context, ui, object, 0, f, m);
                            assert(context.sync(ui, object).messages.contains(m));
                        }
                        lemma_second_pass_is_silent(
                            nested,
                            ui,
                            after,
                            Some(editor),
                            shown.fields[j].value->Object_0,
                            below,
                            place,
                            inner,
                            all,
                            0,
                        );
                    }
                }
            },
            Err(_) => {
            },
        }
    }
}

/// A second pass repeats the first. The bindings show some object, and a
/// pass is made over any addressable object, whatever its fields hold; the
/// queue was empty before, and at least as many steps are taken as the pass
/// sent messages. Then the same pass over the same object sends nothing,
/// fails in the same fields with the same errors, and can be made.
pub proof fn law_second_pass_repeats_the_first(
    context: InspectorContextView,
    ui: UserInterfaceView,
    host: Option<Handle>,
    shown: ObjectView,
    lo: int,
    hi: int,
    object: ObjectView,
    steps: nat,
)
    requires
        context.shows(ui, host, shown, lo, hi),
        object.addressable(),
        ui.messages.len() == 0,
        steps >= context.sync(ui, object).messages.len(),
    ensures
        context.bound_for(ui.send_all(context.sync(ui, object).messages).run(steps), object),
        context.sync(
            ui.send_all(context.sync(ui, object).messages).run(steps),
            object,
        ).messages.len() == 0,
        context.sync(ui.send_all(context.sync(ui, object).messages).run(steps), object).errors
            == context.sync(ui, object).errors,
{
    let sent = context.sync(ui, object).messages;
    let synced = ui.send_all(sent);
    let after = synced.run(steps);
    assert(synced.messages =~= sent);
    lemma_run_settles(synced, steps);
    assert(sent.subrange(0, sent.len() as int) =~= sent);
    assert(delivered_in(ui, after, sent, lo, hi));
    lemma_second_pass_is_silent(context, ui, after, host, shown, lo, hi, object, sent, 0);
    context.lemma_shown_is_bound(ui, host, shown, lo, hi, object);
    lemma_run_keeps_structure(synced, steps);
    assert(same_structure(ui, after));
    lemma_errors_read_structure(context, ui, after, object, 0);
    lemma_bound_follows_structure(context, ui, after, object);
}

/// The same at the composite editor: once the messages of an update have
/// been delivered, the same update of the same nested inspector with the
/// same value can be made, sends nothing, leaves the interface as it is,
/// and gives the errors that the first one gave.
pub proof fn law_composite_update_repeats(
    definition: InspectablePropertyEditorDefinition,
    ui: UserInterfaceView,
    instance: Handle,
    host: Option<Handle>,
    shown: ObjectView,
    lo: int,
    hi: int,
    info: PropertyInfoView,
    object: ObjectView,
    steps: nat,
)
    requires
        ui.contains(instance),
        ui.node(instance).widget is Inspector,
        ui.context_at(instance).shows(ui, host, shown, lo, hi),
        info.value == ValueView::Object(object),
        object.type_id == definition.type_id,
        object.addressable(),
        ui.messages.len() == 0,
        steps >= definition.outcome(ui, info, instance).messages.len(),
    ensures
        definition.can_update(ui, info, instance),
        definition.can_update(
            ui.send_all(definition.outcome(ui, info, instance).messages).run(steps),
            info,
            instance,
        ),
        definition.outcome(
            ui.send_all(definition.outcome(ui, info, instance).messages).run(steps),
            info,
            instance,
        ).messages.len() == 0,
        definition.outcome(
            ui.send_all(definition.outcome(ui, info, instance).messages).run(steps),
            info,
            instance,
        ).errors == definition.outcome(ui, info, instance).errors,
{
    let context = ui.context_at(instance);
    let after = ui.send_all(context.sync(ui, object).messages).run(steps);
    assert(definition.outcome(ui, info, instance) == context.sync(ui, object).grouped());
    law_second_pass_repeats_the_first(context, ui, host, shown, lo, hi, object, steps);
    context.lemma_shown_is_bound(ui, host, shown, lo, hi, object);
    lemma_run_keeps_structure(ui.send_all(context.sync(ui, object).messages), steps);
    assert(after.nodes[instance.0 as int].widget == ui.nodes[instance.0 as int].widget);
    assert(definition.outcome(after, info, instance) == context.sync(after, object).grouped());
}

} // verus!
