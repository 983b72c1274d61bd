use std::rc::Rc;
use std::sync::Arc;

use inspector::error::InspectorError;
use inspector::inspector::editors::inspectable::InspectablePropertyEditorDefinition;
use inspector::inspector::editors::primitive::PrimitivePropertyEditorDefinition;
use inspector::inspector::editors::PropertyEditorDefinition;
use inspector::inspector::editors::PropertyEditorBuildContext;
use inspector::inspector::editors::PropertyEditorDefinitionContainer;
use inspector::inspector::editors::PropertyEditorMessageContext;
use inspector::inspector::Inspector;
use inspector::inspector::InspectorContext;
use inspector::message::FieldKind;
use inspector::message::MessageDirection;
use inspector::message::PropertyChanged;
use inspector::message::UiMessage;
use inspector::message::UiMessageData;
use inspector::reflect::Field;
use inspector::reflect::Object;
use inspector::reflect::Primitive;
use inspector::reflect::PrimitiveKind;
use inspector::reflect::PropertyInfo;
use inspector::reflect::TypeId;
use inspector::reflect::Value;
use inspector::ui::Handle;
use inspector::ui::UserInterface;
use inspector::ui::Widget;

const OUTER: u64 = 10;
const INNER: u64 = 11;
const DEEP: u64 = 12;
const MARK: u64 = 7;

fn field(name: &str, value: Primitive) -> Field {
    Field { name: name.to_string(), value: Value::Primitive(value) }
}

fn holder(name: &str, object: Object) -> Field {
    Field { name: name.to_string(), value: Value::Object(object) }
}

/// `{a: i32, b: {c: String}}`
fn pair(a: i32, c: &str) -> Object {
    Object {
        type_id: OUTER,
        fields: vec![
            field("a", Primitive::I32(a)),
            holder(
                "b",
                Object { type_id: INNER, fields: vec![field("c", Primitive::Str(c.to_string()))] },
            ),
        ],
    }
}

/// `{flag: bool, mid: {n: i64, low: {x: u32, y: u64}, s: String}, last: i32}`
fn tower(flag: bool, n: i64, x: u32, y: u64, s: &str, last: i32) -> Object {
    Object {
        type_id: OUTER,
        fields: vec![
            field("flag", Primitive::Bool(flag)),
            holder(
                "mid",
                Object {
                    type_id: INNER,
                    fields: vec![
                        field("n", Primitive::I64(n)),
                        holder(
                            "low",
                            Object {
                                type_id: DEEP,
                                fields: vec![
                                    field("x", Primitive::U32(x)),
                                    field("y", Primitive::U64(y)),
                                ],
                            },
                        ),
                        field("s", Primitive::Str(s.to_string())),
                    ],
                },
            ),
            field("last", Primitive::I32(last)),
        ],
    }
}

fn definitions() -> Rc<PropertyEditorDefinitionContainer> {
    let mut container = PropertyEditorDefinitionContainer::new();
    for kind in [
        PrimitiveKind::Bool,
        PrimitiveKind::I32,
        PrimitiveKind::I64,
        PrimitiveKind::U32,
        PrimitiveKind::U64,
        PrimitiveKind::Str,
    ] {
        container.insert(PropertyEditorDefinition::Primitive(
            PrimitivePropertyEditorDefinition::new(kind),
        ));
    }
    for type_id in [OUTER, INNER, DEEP] {
        container.insert(PropertyEditorDefinition::Inspectable(
            InspectablePropertyEditorDefinition::new(type_id),
        ));
    }
    Rc::new(container)
}

/// Builds the root inspector of `object` and returns its handle and a copy of its bindings.
fn inspect(object: &Object, ui: &mut UserInterface) -> (Handle, InspectorContext) {
    let root = Inspector::new(object, ui, definitions(), None, MARK);
    let context = ui.node(root).cast_inspector().expect("an inspector").context().clone();
    (root, context)
}

/// Delivers every waiting message and returns the change records that `root` reported.
fn pump(ui: &mut UserInterface, root: Handle) -> Vec<PropertyChanged> {
    let mut changes = Vec::new();
    let mut steps = 0;
    while let Some(message) = ui.poll_message() {
        steps += 1;
        assert!(steps < 1000);
        if message.destination == root && message.direction == MessageDirection::FromWidget {
            if let UiMessageData::PropertyChanged(change) = message.data {
                changes.push(change);
            }
        }
    }
    changes
}

fn leaf_change(name: &str, owner: u64, value: Primitive) -> PropertyChanged {
    PropertyChanged {
        name: name.to_string(),
        owner_type_id: TypeId::Object(owner),
        value: FieldKind::Value(value),
    }
}

fn wrapped(name: &str, owner: u64, inner: PropertyChanged) -> PropertyChanged {
    PropertyChanged {
        name: name.to_string(),
        owner_type_id: TypeId::Object(owner),
        value: FieldKind::Inspectable(Arc::new(inner)),
    }
}

fn chain_length(change: &PropertyChanged) -> usize {
    match &change.value {
        FieldKind::Value(_) => 0,
        FieldKind::Inspectable(inner) => 1 + chain_length(inner),
    }
}

#[test]
fn sync_with_unchanged_value_sends_nothing() {
    let mut ui = UserInterface::new();
    let (root, context) = inspect(&pair(1, "x"), &mut ui);
    assert_eq!(context.sync(&pair(1, "x"), &mut ui), Ok(()));
    assert_eq!(ui.pending(), 0);
    assert!(pump(&mut ui, root).is_empty());
    let mut ui = UserInterface::new();
    let (root, context) = inspect(&tower(true, 1, 2, 3, "s", 4), &mut ui);
    assert_eq!(context.sync(&tower(true, 1, 2, 3, "s", 4), &mut ui), Ok(()));
    assert_eq!(ui.pending(), 0);
    assert!(pump(&mut ui, root).is_empty());
}

#[test]
fn nested_change_is_reported_once_with_its_path() {
    let mut ui = UserInterface::new();
    let (root, context) = inspect(&pair(1, "x"), &mut ui);
    assert_eq!(context.sync(&pair(1, "y"), &mut ui), Ok(()));
    assert_eq!(ui.pending(), 1);
    let changes = pump(&mut ui, root);
    assert_eq!(
        changes,
        vec![wrapped("b", OUTER, leaf_change("c", INNER, Primitive::Str("y".to_string())))]
    );
    // the widgets now show the new value: another pass has nothing to send
    assert_eq!(context.sync(&pair(1, "y"), &mut ui), Ok(()));
    assert_eq!(ui.pending(), 0);
}

#[test]
fn sync_message_goes_to_the_leaf_editor_with_the_mark() {
    let mut ui = UserInterface::new();
    let (_, context) = inspect(&pair(1, "x"), &mut ui);
    assert_eq!(context.sync(&pair(1, "y"), &mut ui), Ok(()));
    let message = ui.poll_message().expect("one message");
    assert_eq!(
        message,
        UiMessage {
            destination: Handle(1),
            direction: MessageDirection::ToWidget,
            data: UiMessageData::Value(Primitive::Str("y".to_string())),
            flags: MARK,
        }
    );
    let echo = ui.poll_message().expect("the editor's report");
    assert_eq!(echo, message.reverse());
    assert_eq!(echo.flags, MARK);
    assert!(matches!(&ui.node(Handle(1)).widget, Widget::Editor(Primitive::Str(s)) if s == "y"));
}

#[test]
fn top_level_change_has_no_enclosing_object() {
    let mut ui = UserInterface::new();
    let (root, context) = inspect(&pair(1, "x"), &mut ui);
    assert_eq!(context.sync(&pair(2, "x"), &mut ui), Ok(()));
    let changes = pump(&mut ui, root);
    assert_eq!(changes, vec![leaf_change("a", OUTER, Primitive::I32(2))]);
    assert_eq!(chain_length(&changes[0]), 0);
}

#[test]
fn change_two_levels_down_is_wrapped_twice() {
    let mut ui = UserInterface::new();
    let (root, context) = inspect(&tower(true, 1, 2, 3, "s", 4), &mut ui);
    assert_eq!(context.sync(&tower(true, 1, 2, 30, "s", 4), &mut ui), Ok(()));
    assert_eq!(ui.pending(), 1);
    let changes = pump(&mut ui, root);
    assert_eq!(
        changes,
        vec![wrapped(
            "mid",
            OUTER,
            wrapped("low", INNER, leaf_change("y", DEEP, Primitive::U64(30)))
        )]
    );
    assert_eq!(chain_length(&changes[0]), 2);
}

#[test]
fn single_change_takes_one_step_per_level() {
    let mut ui = UserInterface::new();
    let (root, context) = inspect(&tower(true, 1, 2, 3, "s", 4), &mut ui);
    assert_eq!(context.sync(&tower(true, 1, 20, 3, "s", 4), &mut ui), Ok(()));
    // the instruction, the editor's report, and one report per inspector on the way up
    let mut destinations = Vec::new();
    while let Some(message) = ui.poll_message() {
        assert!(ui.pending() <= 1);
        destinations.push((message.destination, message.direction));
    }
    let low = Handle(4);
    let mid = Handle(6);
    assert_eq!(
        destinations,
        vec![
            (Handle(2), MessageDirection::ToWidget),
            (Handle(2), MessageDirection::FromWidget),
            (low, MessageDirection::FromWidget),
            (mid, MessageDirection::FromWidget),
            (root, MessageDirection::FromWidget),
        ]
    );
}

#[test]
fn several_changes_are_each_reported_once() {
    let mut ui = UserInterface::new();
    let (root, context) = inspect(&tower(true, 1, 2, 3, "s", 4), &mut ui);
    assert_eq!(context.sync(&tower(false, 1, 2, 3, "t", 5), &mut ui), Ok(()));
    // the instructions are sent in field order
    assert_eq!(ui.pending(), 3);
    let changes = pump(&mut ui, root);
    // a change deeper down takes more steps to reach the root
    assert_eq!(
        changes,
        vec![
            leaf_change("flag", OUTER, Primitive::Bool(false)),
            leaf_change("last", OUTER, Primitive::I32(5)),
            wrapped("mid", OUTER, leaf_change("s", INNER, Primitive::Str("t".to_string()))),
        ]
    );
}

#[test]
fn field_of_another_type_is_a_mismatch_and_spares_the_sibling() {
    let mut ui = UserInterface::new();
    let (root, context) = inspect(&pair(1, "x"), &mut ui);
    let changed = Object {
        type_id: OUTER,
        fields: vec![
            field("a", Primitive::I64(1)),
            holder(
                "b",
                Object { type_id: INNER, fields: vec![field("c", Primitive::Str("y".to_string()))] },
            ),
        ],
    };
    assert_eq!(
        context.sync(&changed, &mut ui),
        Err(vec![InspectorError::TypeMismatch {
            property_name: "a".to_string(),
            expected_type_id: TypeId::Primitive(PrimitiveKind::I32),
            actual_type_id: TypeId::Primitive(PrimitiveKind::I64),
        }])
    );
    // the sibling was brought up to date all the same
    assert_eq!(
        pump(&mut ui, root),
        vec![wrapped("b", OUTER, leaf_change("c", INNER, Primitive::Str("y".to_string())))]
    );
    assert!(matches!(ui.node(Handle(0)).widget, Widget::Editor(Primitive::I32(1))));
}

#[test]
fn object_of_another_type_in_a_composite_field_is_a_mismatch() {
    let mut ui = UserInterface::new();
    let (_, context) = inspect(&pair(1, "x"), &mut ui);
    let changed = Object {
        type_id: OUTER,
        fields: vec![
            field("a", Primitive::I32(1)),
            holder("b", Object { type_id: DEEP, fields: vec![] }),
        ],
    };
    assert_eq!(
        context.sync(&changed, &mut ui),
        Err(vec![InspectorError::TypeMismatch {
            property_name: "b".to_string(),
            expected_type_id: TypeId::Object(INNER),
            actual_type_id: TypeId::Object(DEEP),
        }])
    );
    assert_eq!(ui.pending(), 0);
}

#[test]
fn two_failing_siblings_give_two_errors() {
    let mut ui = UserInterface::new();
    let (_, context) = inspect(&tower(true, 1, 2, 3, "s", 4), &mut ui);
    let changed = Object {
        type_id: OUTER,
        fields: vec![
            field("flag", Primitive::I32(0)),
            holder(
                "mid",
                Object {
                    type_id: INNER,
                    fields: vec![
                        field("n", Primitive::I64(1)),
                        holder(
                            "low",
                            Object {
                                type_id: DEEP,
                                fields: vec![
                                    field("x", Primitive::U32(2)),
                                    field("y", Primitive::U64(3)),
                                ],
                            },
                        ),
                        field("s", Primitive::Str("s".to_string())),
                    ],
                },
            ),
            field("last", Primitive::Bool(true)),
        ],
    };
    assert_eq!(
        context.sync(&changed, &mut ui),
        Err(vec![
            InspectorError::TypeMismatch {
                property_name: "flag".to_string(),
                expected_type_id: TypeId::Primitive(PrimitiveKind::Bool),
                actual_type_id: TypeId::Primitive(PrimitiveKind::I32),
            },
            InspectorError::TypeMismatch {
                property_name: "last".to_string(),
                expected_type_id: TypeId::Primitive(PrimitiveKind::I32),
                actual_type_id: TypeId::Primitive(PrimitiveKind::Bool),
            },
        ])
    );
    assert_eq!(ui.pending(), 0);
}

#[test]
fn nested_failures_come_back_as_one_group() {
    let mut ui = UserInterface::new();
    let (root, context) = inspect(&tower(true, 1, 2, 3, "s", 4), &mut ui);
    let changed = Object {
        type_id: OUTER,
        fields: vec![
            field("flag", Primitive::Bool(true)),
            holder(
                "mid",
                Object {
                    type_id: INNER,
                    fields: vec![
                        field("n", Primitive::Bool(false)),
                        holder(
                            "low",
                            Object {
                                type_id: DEEP,
                                fields: vec![
                                    field("x", Primitive::U32(20)),
                                    field("y", Primitive::U64(3)),
                                ],
                            },
                        ),
                        field("s", Primitive::I32(1)),
                    ],
                },
            ),
            field("last", Primitive::I32(4)),
        ],
    };
    let group = InspectorError::Group(vec![
        InspectorError::TypeMismatch {
            property_name: "n".to_string(),
            expected_type_id: TypeId::Primitive(PrimitiveKind::I64),
            actual_type_id: TypeId::Primitive(PrimitiveKind::Bool),
        },
        InspectorError::TypeMismatch {
            property_name: "s".to_string(),
            expected_type_id: TypeId::Primitive(PrimitiveKind::Str),
            actual_type_id: TypeId::Primitive(PrimitiveKind::I32),
        },
    ]);
    assert_eq!(context.sync(&changed, &mut ui), Err(vec![group.clone()]));
    // the field between the two that failed was brought up to date
    assert_eq!(
        pump(&mut ui, root),
        vec![wrapped("mid", OUTER, wrapped("low", INNER, leaf_change("x", DEEP, Primitive::U32(20))))]
    );
    // the composite editor of `mid` reports the same group
    let mid_value = match changed.fields.into_iter().nth(1).map(|f| f.value) {
        Some(value) => value,
        None => unreachable!(),
    };
    let info = PropertyInfo { name: "mid", owner_type_id: TypeId::Object(OUTER), value: &mid_value };
    let result = InspectablePropertyEditorDefinition::new(INNER).create_message(
        PropertyEditorMessageContext {
            sync_flag: MARK,
            instance: Handle(6),
            ui: &mut ui,
            property_info: &info,
        },
    );
    assert_eq!(result, Err(group));
    if let Err(InspectorError::Group(errors)) = result {
        assert_eq!(errors.len(), 2);
    }
}

#[test]
fn composite_create_message_returns_no_message() {
    let mut ui = UserInterface::new();
    let (_, context) = inspect(&pair(1, "x"), &mut ui);
    let nested = context.entries[1].property_editor;
    let definition = InspectablePropertyEditorDefinition::new(INNER);
    let same = Value::Object(Object {
        type_id: INNER,
        fields: vec![field("c", Primitive::Str("x".to_string()))],
    });
    let info = PropertyInfo { name: "b", owner_type_id: TypeId::Object(OUTER), value: &same };
    let result = definition.create_message(PropertyEditorMessageContext {
        sync_flag: MARK,
        instance: nested,
        ui: &mut ui,
        property_info: &info,
    });
    assert_eq!(result, Ok(None));
    assert_eq!(ui.pending(), 0);
    let other = Value::Object(Object {
        type_id: INNER,
        fields: vec![field("c", Primitive::Str("y".to_string()))],
    });
    let info = PropertyInfo { name: "b", owner_type_id: TypeId::Object(OUTER), value: &other };
    let result = definition.create_message(PropertyEditorMessageContext {
        sync_flag: MARK,
        instance: nested,
        ui: &mut ui,
        property_info: &info,
    });
    // what the nested editors need was sent by the nested pass itself
    assert_eq!(result, Ok(None));
    assert_eq!(ui.pending(), 1);
    let number = Value::Primitive(Primitive::I32(3));
    let info = PropertyInfo { name: "b", owner_type_id: TypeId::Object(OUTER), value: &number };
    let result = definition.create_message(PropertyEditorMessageContext {
        sync_flag: MARK,
        instance: nested,
        ui: &mut ui,
        property_info: &info,
    });
    assert_eq!(
        result,
        Err(InspectorError::TypeMismatch {
            property_name: "b".to_string(),
            expected_type_id: TypeId::Object(INNER),
            actual_type_id: TypeId::Primitive(PrimitiveKind::I32),
        })
    );
    assert_eq!(ui.pending(), 1);
}

#[test]
fn leaf_create_message_asks_only_for_what_differs() {
    let mut ui = UserInterface::new();
    let (_, context) = inspect(&pair(1, "x"), &mut ui);
    let editor = context.entries[0].property_editor;
    let definition = PrimitivePropertyEditorDefinition::new(PrimitiveKind::I32);
    let shown = Value::Primitive(Primitive::I32(1));
    let info = PropertyInfo { name: "a", owner_type_id: TypeId::Object(OUTER), value: &shown };
    let result = definition.create_message(PropertyEditorMessageContext {
        sync_flag: 3,
        instance: editor,
        ui: &mut ui,
        property_info: &info,
    });
    assert_eq!(result, Ok(None));
    let newer = Value::Primitive(Primitive::I32(2));
    let info = PropertyInfo { name: "a", owner_type_id: TypeId::Object(OUTER), value: &newer };
    let result = definition.create_message(PropertyEditorMessageContext {
        sync_flag: 3,
        instance: editor,
        ui: &mut ui,
        property_info: &info,
    });
    assert_eq!(
        result,
        Ok(Some(UiMessage {
            destination: editor,
            direction: MessageDirection::ToWidget,
            data: UiMessageData::Value(Primitive::I32(2)),
            flags: 3,
        }))
    );
    // the message is returned, not sent
    assert_eq!(ui.pending(), 0);
    let text = Value::Primitive(Primitive::Str("2".to_string()));
    let info = PropertyInfo { name: "a", owner_type_id: TypeId::Object(OUTER), value: &text };
    let result = definition.create_message(PropertyEditorMessageContext {
        sync_flag: 3,
        instance: editor,
        ui: &mut ui,
        property_info: &info,
    });
    assert_eq!(
        result,
        Err(InspectorError::TypeMismatch {
            property_name: "a".to_string(),
            expected_type_id: TypeId::Primitive(PrimitiveKind::I32),
            actual_type_id: TypeId::Primitive(PrimitiveKind::Str),
        })
    );
}

#[test]
fn field_without_binding_is_a_missing_editor() {
    let mut ui = UserInterface::new();
    let (_, context) = inspect(&pair(1, "x"), &mut ui);
    let wider = Object {
        type_id: OUTER,
        fields: vec![field("a", Primitive::I32(1)), field("extra", Primitive::Bool(true))],
    };
    assert_eq!(
        context.sync(&wider, &mut ui),
        Err(vec![InspectorError::MissingEditor {
            property_name: "extra".to_string(),
            type_id: TypeId::Primitive(PrimitiveKind::Bool),
        }])
    );
    assert_eq!(ui.pending(), 0);
}

#[test]
fn field_whose_editor_is_missing_fails_again_on_sync() {
    let mut container = PropertyEditorDefinitionContainer::new();
    container.insert(PropertyEditorDefinition::Primitive(PrimitivePropertyEditorDefinition::new(
        PrimitiveKind::I32,
    )));
    let mut ui = UserInterface::new();
    let context = InspectorContext::from_object(&pair(1, "x"), &mut ui, Rc::new(container), None, 0);
    let missing = InspectorError::MissingEditor {
        property_name: "b".to_string(),
        type_id: TypeId::Object(INNER),
    };
    assert_eq!(context.build_errors(), vec![missing.clone()]);
    assert_eq!(context.sync(&pair(2, "y"), &mut ui), Err(vec![missing]));
    // the field that has an editor was brought up to date
    assert_eq!(ui.pending(), 1);
    assert_eq!(
        ui.poll_message(),
        Some(UiMessage {
            destination: Handle(0),
            direction: MessageDirection::ToWidget,
            data: UiMessageData::Value(Primitive::I32(2)),
            flags: 0,
        })
    );
}

#[test]
fn bindings_are_found_by_field_name() {
    let mut ui = UserInterface::new();
    let (_, context) = inspect(&pair(1, "x"), &mut ui);
    assert_eq!(context.find_property_editor("a"), Some(Handle(0)));
    assert_eq!(context.find_property_editor("b"), Some(Handle(2)));
    assert_eq!(context.find_property_editor("c"), None);
    assert_eq!(context.find_entry("b"), Some(1));
    assert_eq!(context.find_entry(""), None);
}

#[test]
fn sync_of_sync_is_idempotent_after_delivery() {
    let mut ui = UserInterface::new();
    let (root, context) = inspect(&tower(true, 1, 2, 3, "s", 4), &mut ui);
    let next = tower(false, -1, 0, u64::MAX, "", i32::MIN);
    assert_eq!(context.sync(&next, &mut ui), Ok(()));
    assert_eq!(pump(&mut ui, root).len(), 6);
    assert_eq!(context.sync(&next, &mut ui), Ok(()));
    assert_eq!(ui.pending(), 0);
}

#[test]
fn reports_caused_by_a_pass_carry_its_mark() {
    let mut ui = UserInterface::new();
    let (root, context) = inspect(&tower(true, 1, 2, 3, "s", 4), &mut ui);
    assert_eq!(context.sync(&tower(true, 1, 2, 3, "u", 4), &mut ui), Ok(()));
    let mut seen = 0;
    while let Some(message) = ui.poll_message() {
        assert_eq!(message.flags, MARK);
        if message.destination == root {
            seen += 1;
        }
    }
    assert_eq!(seen, 1);
}

#[test]
fn change_of_kind_is_a_mismatch_and_reports_nothing() {
    let mut ui = UserInterface::new();
    let (root, context) = inspect(&pair(1, "x"), &mut ui);
    let changed = Object {
        type_id: OUTER,
        fields: vec![
            field("a", Primitive::I32(1)),
            holder("b", Object { type_id: INNER, fields: vec![field("c", Primitive::I32(7))] }),
        ],
    };
    assert_eq!(
        context.sync(&changed, &mut ui),
        Err(vec![InspectorError::Group(vec![InspectorError::TypeMismatch {
            property_name: "c".to_string(),
            expected_type_id: TypeId::Primitive(PrimitiveKind::Str),
            actual_type_id: TypeId::Primitive(PrimitiveKind::I32),
        }])])
    );
    assert!(pump(&mut ui, root).is_empty());
}

#[test]
fn fields_that_share_a_name_share_the_first_binding() {
    let mut ui = UserInterface::new();
    let twins = Object {
        type_id: OUTER,
        fields: vec![field("x", Primitive::I32(1)), field("x", Primitive::I32(2))],
    };
    assert!(!twins.is_addressable());
    let context = InspectorContext::from_object(&twins, &mut ui, definitions(), None, MARK);
    // building still gives one binding per field
    assert_eq!(context.entries.len(), 2);
    assert_eq!(ui.len(), 2);
    // a pass finds the first binding for both fields
    assert_eq!(context.find_entry("x"), Some(0));
    assert_eq!(context.sync(&twins, &mut ui), Ok(()));
    assert_eq!(
        ui.poll_message(),
        Some(UiMessage {
            destination: Handle(0),
            direction: MessageDirection::ToWidget,
            data: UiMessageData::Value(Primitive::I32(2)),
            flags: MARK,
        })
    );
}

#[test]
fn edit_in_the_interface_then_sync_sends_nothing_back() {
    let mut ui = UserInterface::new();
    let (root, context) = inspect(&pair(1, "x"), &mut ui);
    // the user changes `a` in its editor: the interface is told, the editor shows and reports it
    ui.send_message(UiMessage::value(Handle(0), MessageDirection::ToWidget, Primitive::I32(5)));
    let changes = pump(&mut ui, root);
    assert_eq!(changes, vec![leaf_change("a", OUTER, Primitive::I32(5))]);
    // the owner applies the change to the object and brings the bindings up to date
    assert_eq!(context.sync(&pair(5, "x"), &mut ui), Ok(()));
    assert_eq!(ui.pending(), 0);
}

#[test]
fn rebuilt_nested_inspector_is_updated_through_the_root() {
    let mut ui = UserInterface::new();
    let first = Object {
        type_id: OUTER,
        fields: vec![holder("b", Object { type_id: INNER, fields: vec![] })],
    };
    let (root, context) = inspect(&first, &mut ui);
    let nested = context.entries[0].property_editor;
    assert_eq!(nested, Handle(0));
    // another shape is attached to the nested inspector: its widgets stand above the root
    let inner = Object {
        type_id: INNER,
        fields: vec![holder(
            "d",
            Object { type_id: DEEP, fields: vec![field("x", Primitive::U32(1))] },
        )],
    };
    assert!(Inspector::attach(nested, &inner, &mut ui));
    assert!(root.0 < ui.len() - 1);
    let now = Object {
        type_id: OUTER,
        fields: vec![holder(
            "b",
            Object {
                type_id: INNER,
                fields: vec![holder(
                    "d",
                    Object { type_id: DEEP, fields: vec![field("x", Primitive::U32(2))] },
                )],
            },
        )],
    };
    assert_eq!(context.sync(&now, &mut ui), Ok(()));
    assert_eq!(
        pump(&mut ui, root),
        vec![wrapped("b", OUTER, wrapped("d", INNER, leaf_change("x", DEEP, Primitive::U32(2))))]
    );
}

#[test]
fn inspector_built_by_the_composite_editor_is_updated_after_a_rebuild() {
    let mut ui = UserInterface::new();
    let definition = InspectablePropertyEditorDefinition::new(INNER);
    let empty = Value::Object(Object { type_id: INNER, fields: vec![] });
    let info = PropertyInfo { name: "b", owner_type_id: TypeId::Object(OUTER), value: &empty };
    let instance = definition
        .create_instance(PropertyEditorBuildContext {
            build_context: &mut ui,
            property_info: &info,
            environment: None,
            definition_container: definitions(),
            sync_flag: MARK,
        })
        .expect("an object of the editor's type");
    let shape = Object {
        type_id: INNER,
        fields: vec![holder("d", Object { type_id: DEEP, fields: vec![field("y", Primitive::U64(1))] })],
    };
    assert!(Inspector::attach(instance.editor, &shape, &mut ui));
    let next = Value::Object(Object {
        type_id: INNER,
        fields: vec![holder("d", Object { type_id: DEEP, fields: vec![field("y", Primitive::U64(9))] })],
    });
    let info = PropertyInfo { name: "b", owner_type_id: TypeId::Object(OUTER), value: &next };
    let result = definition.create_message(PropertyEditorMessageContext {
        sync_flag: MARK,
        instance: instance.editor,
        ui: &mut ui,
        property_info: &info,
    });
    assert_eq!(result, Ok(None));
    assert_eq!(
        ui.poll_message(),
        Some(UiMessage {
            destination: Handle(1),
            direction: MessageDirection::ToWidget,
            data: UiMessageData::Value(Primitive::U64(9)),
            flags: MARK,
        })
    );
}

#[test]
fn second_pass_after_delivery_repeats_the_errors_and_sends_nothing() {
    let mut ui = UserInterface::new();
    let (root, context) = inspect(&tower(true, 1, 2, 3, "s", 4), &mut ui);
    // two leaves change, one field changes its kind, one field has no binding
    let next = Object {
        type_id: OUTER,
        fields: vec![
            field("flag", Primitive::Bool(false)),
            holder(
                "mid",
                Object {
                    type_id: INNER,
                    fields: vec![
                        field("n", Primitive::Str("no number".to_string())),
                        holder(
                            "low",
                            Object {
                                type_id: DEEP,
                                fields: vec![
                                    field("x", Primitive::U32(20)),
                                    field("y", Primitive::U64(3)),
                                ],
                            },
                        ),
                        field("s", Primitive::Str("s".to_string())),
                    ],
                },
            ),
            field("extra", Primitive::I32(0)),
        ],
    };
    let first = context.sync(&next, &mut ui);
    assert!(first.is_err());
    assert_eq!(ui.pending(), 2);
    assert_eq!(pump(&mut ui, root).len(), 2);
    let second = context.sync(&next, &mut ui);
    assert_eq!(second, first);
    assert_eq!(ui.pending(), 0);
    assert!(matches!(ui.node(Handle(0)).widget, Widget::Editor(Primitive::Bool(false))));
    assert!(matches!(ui.node(Handle(1)).widget, Widget::Editor(Primitive::I64(1))));
    assert!(matches!(ui.node(Handle(2)).widget, Widget::Editor(Primitive::U32(20))));
}
