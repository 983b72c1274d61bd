//! The inspector widget: the widget that hosts the bindings of one object.

use std::rc::Rc;
use vstd::prelude::*;
use crate::inspector::context::InspectorContext;
use crate::inspector::context::InspectorContextView;
use crate::inspector::context::InspectorEnvironment;
use crate::inspector::context::share_definitions;
use crate::inspector::editors::PropertyEditorDefinition;
use crate::inspector::editors::PropertyEditorDefinitionContainer;
use crate::reflect::Object;
use crate::reflect::TypeId;
use crate::ui::Handle;
use crate::ui::UiNode;
use crate::ui::UiNodeView;
use crate::ui::UserInterface;
use crate::ui::Widget;
use crate::ui::WidgetView;

verus! {

/// A widget that hosts the editors of one object's fields.
#[derive(Debug)]
pub struct Inspector {
    pub context: InspectorContext,
}

impl Inspector {
    /// Builds an inspector for `object` at the end of `ui` and returns its
    /// handle: the editors of the object's fields are built through the
    /// registry, nested inspectors for the fields that hold objects, and the
    /// inspector that hosts them comes last.
    pub fn new(
        object: &Object,
        ui: &mut UserInterface,
        definition_container: Rc<PropertyEditorDefinitionContainer>,
        environment: Option<InspectorEnvironment>,
        sync_flag: u64,
    ) -> (root: Handle)
        ensures
            final(ui)@.inspects(
                old(ui)@,
                root,
                object@,
                definition_container@,
                environment,
                sync_flag,
            ),
    {
        let ghost before = ui@;
        let context = InspectorContext::from_object(
            object,
            ui,
            definition_container,
            environment,
            sync_flag,
        );
        let ghost filled = ui@;
        let ghost bindings = context@;
        let root = InspectorBuilder::new().with_context(context).build(ui);
        proof {
            bindings.lemma_inspector_built(before, filled, ui@, root, object@);
        }
        root
    }

    /// Attaches `object` to the inspector at `root`, in place of the object
    /// it showed: the bindings are built anew at the end of `ui`, with the
    /// registry, the environment and the mark the inspector had, and the
    /// inspector hosts the new bindings from then on. The widgets of the old
    /// bindings stay in the pool, bound by nothing. Where `root` is no
    /// inspector of `ui`, nothing happens and the result is `false`.
    pub fn attach(root: Handle, object: &Object, ui: &mut UserInterface) -> (attached: bool)
        ensures
            attached == (old(ui)@.contains(root) && old(ui)@.node(root).widget is Inspector),
            !attached ==> final(ui)@ == old(ui)@,
            attached ==> {
                &&& final(ui)@.messages == old(ui)@.messages
                &&& old(ui)@.nodes.len() <= final(ui)@.nodes.len()
                &&& forall|k: int|
                    0 <= k < old(ui)@.nodes.len() && k != root.0 ==> final(ui)@.nodes[k] == old(
                        ui,
                    )@.nodes[k]
                &&& final(ui)@.node(root).parent == old(ui)@.node(root).parent
                &&& final(ui)@.node(root).widget matches WidgetView::Inspector(context)
                &&& context.property_definitions == old(ui)@.context_at(root).property_definitions
                &&& context.environment == old(ui)@.context_at(root).environment
                &&& context.sync_flag == old(ui)@.context_at(root).sync_flag
                &&& context.shows(
                    final(ui)@,
                    Some(root),
                    object@,
                    old(ui)@.nodes.len() as int,
                    final(ui)@.nodes.len() as int,
                )
            },
    {
        let ghost before = ui@;
        let inherited = match ui.try_node(root) {
            Some(node) => match node.cast_inspector() {
                Some(inspector) => Some(
                    (
                        share_definitions(&inspector.context.property_definitions),
                        inspector.context.environment,
                        inspector.context.sync_flag,
                    ),
                ),
                None => None,
            },
            None => None,
        };
        let (definitions, environment, sync_flag) = match inherited {
            Some(inherited) => inherited,
            None => {
                return false;
            },
        };
        let context = InspectorContext::from_object(object, ui, definitions, environment, sync_flag);
        let ghost filled = ui@;
        let ghost bindings = context@;
        adopt(ui, &context, root);
        let ghost adopted = ui@;
        ui.replace_widget(root, Widget::Inspector(Inspector { context }));
        proof {
            let lo = before.nodes.len() as int;
            let hi = filled.nodes.len() as int;
            let n = object@.fields.len() as int;
            bindings.lemma_hosted(filled, adopted, root, object@, lo, hi);
            bindings.lemma_covers_frame(bindings, adopted, ui@, Some(root), object@, lo, hi, hi, n);
            assert forall|k: int| 0 <= k < lo implies (adopted.nodes[k] == before.nodes[k]) by {
                if bindings.edits_with(Handle(k as usize), bindings.entries.len() as int) {
                    let j = choose|j: int|
                        0 <= j < bindings.entries.len() && (
                        #[trigger] bindings.entries[j]).property_editor == Handle(k as usize);
                    bindings.lemma_floor(filled, None, object@, lo, hi, n, j);
                }
                assert(filled.nodes.subrange(0, lo)[k] == before.nodes[k]);
            }
        }
        true
    }

    /// The bindings the inspector hosts.
    pub fn context(&self) -> (context: &InspectorContext)
        ensures
            context == &self.context,
    {
        &self.context
    }
}

/// Builds an inspector widget.
#[derive(Debug)]
pub struct InspectorBuilder {
    pub context: InspectorContext,
}

impl InspectorBuilder {
    /// A builder of an inspector without bindings.
    pub fn new() -> (builder: InspectorBuilder)
        ensures
            builder.context@ == (InspectorContextView {
                entries: Seq::empty(),
                property_definitions: Map::<TypeId, PropertyEditorDefinition>::empty(),
                environment: None,
                sync_flag: 0,
            }),
    {
        let builder = InspectorBuilder {
            context: InspectorContext {
                entries: Vec::new(),
                property_definitions: Rc::new(PropertyEditorDefinitionContainer::new()),
                environment: None,
                sync_flag: 0,
            },
        };
        assert(builder.context@.entries =~= Seq::empty());
        builder
    }

    /// The builder of an inspector that hosts `context`.
    pub fn with_context(self, context: InspectorContext) -> (builder: InspectorBuilder)
        ensures
            builder.context == context,
    {
        InspectorBuilder { context }
    }

    /// Puts the inspector into `ui`: the widgets of its bindings become part
    /// of it, and it takes the next free handle.
    pub fn build(self, ui: &mut UserInterface) -> (handle: Handle)
        ensures
            handle.0 == old(ui)@.nodes.len(),
            final(ui)@ == old(ui)@.adopt(self.context@, handle).add(
                UiNodeView { parent: None, widget: WidgetView::Inspector(self.context@) },
            ),
    {
        let handle = Handle(ui.len());
        adopt(ui, &self.context, handle);
        ui.add_node(UiNode { parent: None, widget: Widget::Inspector(Inspector { context: self.context }) })
    }
}

/// Makes the widgets of the bindings of `context` part of `host`. A binding
/// whose widget is not in the pool is passed over.
pub fn adopt(ui: &mut UserInterface, context: &InspectorContext, host: Handle)
    ensures
        final(ui)@ == old(ui)@.adopt(context@, host),
{
    let ghost before = ui@;
    let ghost bindings = context@;
    let n = context.entries.len();
    let mut i: usize = 0;
    while i < n
        invariant
            n == context.entries.len(),
            bindings == context@,
            i <= n,
            ui@.messages == before.messages,
            ui@.nodes.len() == before.nodes.len(),
            forall|k: int|
                0 <= k < before.nodes.len() ==> #[trigger] ui@.nodes[k] == (if bindings.edits_with(
                    Handle(k as usize),
                    i as int,
                ) {
                    UiNodeView { parent: Some(host), ..before.nodes[k] }
                } else {
                    before.nodes[k]
                }),
        decreases n - i,
    {
        let editor = context.entries[i].property_editor;
        let ghost previous = ui@;
        if editor.0 < ui.len() {
            ui.link(editor, host);
        }
        proof {
            assert(bindings.entries[i as int].property_editor == editor);
            assert forall|k: int| 0 <= k < before.nodes.len() implies #[trigger] ui@.nodes[k] == (
            if bindings.edits_with(Handle(k as usize), i + 1) {
                UiNodeView { parent: Some(host), ..before.nodes[k] }
            } else {
                before.nodes[k]
            }) by {
                assert(previous.nodes[k] == (if bindings.edits_with(Handle(k as usize), i as int) {
                    UiNodeView { parent: Some(host), ..before.nodes[k] }
                } else {
                    before.nodes[k]
                }));
                if k == editor.0 {
                    assert(bindings.edits_with(Handle(k as usize), i + 1));
                } else if bindings.edits_with(Handle(k as usize), i + 1) {
                    let j = choose|j: int|
                        0 <= j < i + 1 && j < bindings.entries.len() && (
                        #[trigger] bindings.entries[j]).property_editor == Handle(k as usize);
                    assert(j < i);
                    assert(bindings.edits_with(Handle(k as usize), i as int));
                } else {
                    if bindings.edits_with(Handle(k as usize), i as int) {
                        let j = choose|j: int|
                            0 <= j < i && j < bindings.entries.len() && (
                            #[trigger] bindings.entries[j]).property_editor == Handle(k as usize);
                        assert(bindings.edits_with(Handle(k as usize), i + 1));
                    }
                }
            }
        }
        i += 1;
    }
    assert(ui@.nodes =~= before.adopt(bindings, host).nodes);
}

} // verus!
