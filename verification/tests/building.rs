use std::rc::Rc;

use inspector::error::InspectorError;
use inspector::inspector::editors::inspectable::InspectablePropertyEditorDefinition;
use inspector::inspector::editors::primitive::PrimitivePropertyEditorDefinition;
use inspector::inspector::editors::Layout;
use inspector::inspector::editors::PropertyEditorBuildContext;
use inspector::inspector::editors::PropertyEditorDefinition;
use inspector::inspector::editors::PropertyEditorDefinitionContainer;
use inspector::inspector::Inspector;
use inspector::inspector::InspectorBuilder;
use inspector::inspector::InspectorContext;
use inspector::inspector::InspectorEnvironment;
use inspector::reflect::Field;
use inspector::reflect::Object;
use inspector::reflect::Primitive;
use inspector::reflect::PrimitiveKind;
use inspector::reflect::PropertyInfo;
use inspector::reflect::TypeId;
use inspector::reflect::Value;
use inspector::ui::Handle;
use inspector::ui::UiNode;
use inspector::ui::UserInterface;
use inspector::ui::Widget;

const OUTER: u64 = 10;
const INNER: u64 = 11;
const DEEP: u64 = 12;
const FOO: u64 = 99;

fn leaf(name: &str, value: Primitive) -> Field {
    Field { name: name.to_string(), value: Value::Primitive(value) }
}

fn nested(name: &str, object: Object) -> Field {
    Field { name: name.to_string(), value: Value::Object(object) }
}

/// `{a: i32, b: {c: String}}`
fn sample(a: i32, c: &str) -> Object {
    Object {
        type_id: OUTER,
        fields: vec![
            leaf("a", Primitive::I32(a)),
            nested(
                "b",
                Object { type_id: INNER, fields: vec![leaf("c", Primitive::Str(c.to_string()))] },
            ),
        ],
    }
}

/// `{flag: bool, mid: {n: i64, low: {x: u32, y: u64}, s: String}, last: i32}`
fn three_levels() -> Object {
    Object {
        type_id: OUTER,
        fields: vec![
            leaf("flag", Primitive::Bool(true)),
            nested(
                "mid",
                Object {
                    type_id: INNER,
                    fields: vec![
                        leaf("n", Primitive::I64(-4)),
                        nested(
                            "low",
                            Object {
                                type_id: DEEP,
                                fields: vec![
                                    leaf("x", Primitive::U32(1)),
                                    leaf("y", Primitive::U64(2)),
                                ],
                            },
                        ),
                        leaf("s", Primitive::Str("t".to_string())),
                    ],
                },
            ),
            leaf("last", Primitive::I32(9)),
        ],
    }
}

fn primitive(kind: PrimitiveKind) -> PropertyEditorDefinition {
    PropertyEditorDefinition::Primitive(PrimitivePropertyEditorDefinition::new(kind))
}

fn inspectable(type_id: u64) -> PropertyEditorDefinition {
    PropertyEditorDefinition::Inspectable(InspectablePropertyEditorDefinition::new(type_id))
}

fn registry() -> Rc<PropertyEditorDefinitionContainer> {
    let mut container = PropertyEditorDefinitionContainer::new();
    for kind in [
        PrimitiveKind::Bool,
        PrimitiveKind::I32,
        PrimitiveKind::I64,
        PrimitiveKind::U32,
        PrimitiveKind::U64,
        PrimitiveKind::Str,
    ] {
        container.insert(primitive(kind));
    }
    for type_id in [OUTER, INNER, DEEP] {
        container.insert(inspectable(type_id));
    }
    Rc::new(container)
}

fn nested_context(ui: &UserInterface, handle: Handle) -> &InspectorContext {
    ui.node(handle).cast_inspector().expect("an inspector").context()
}

#[test]
fn build_gives_one_widget_per_top_level_field() {
    let mut ui = UserInterface::new();
    let object = sample(1, "x");
    let context = InspectorContext::from_object(&object, &mut ui, registry(), None, 7);
    assert_eq!(context.entries.len(), 2);
    assert_eq!(context.entries[0].property_name, "a");
    assert_eq!(context.entries[1].property_name, "b");
    assert_eq!(context.entries[0].property_owner_type_id, TypeId::Object(OUTER));
    assert_eq!(context.entries[1].property_owner_type_id, TypeId::Object(OUTER));
    assert_eq!(context.entries[0].property_editor_definition, Ok(primitive(PrimitiveKind::I32)));
    assert_eq!(context.entries[1].property_editor_definition, Ok(inspectable(INNER)));
    // a's editor, c's editor, b's nested inspector
    assert_eq!(ui.len(), 3);
    assert_eq!(context.entries[0].property_editor, Handle(0));
    assert_eq!(context.entries[1].property_editor, Handle(2));
    assert!(matches!(ui.node(Handle(0)).widget, Widget::Editor(Primitive::I32(1))));
    assert!(matches!(&ui.node(Handle(1)).widget, Widget::Editor(Primitive::Str(s)) if s == "x"));
    let inner = nested_context(&ui, Handle(2));
    assert_eq!(inner.entries.len(), 1);
    assert_eq!(inner.entries[0].property_name, "c");
    assert_eq!(inner.entries[0].property_owner_type_id, TypeId::Object(INNER));
    assert_eq!(inner.entries[0].property_editor, Handle(1));
    assert_eq!(ui.node(Handle(1)).parent, Some(Handle(2)));
    assert_eq!(ui.node(Handle(0)).parent, None);
    assert_eq!(ui.node(Handle(2)).parent, None);
    assert_eq!(ui.pending(), 0);
    assert!(context.build_errors().is_empty());
}

#[test]
fn root_inspector_hosts_the_top_level_widgets() {
    let mut ui = UserInterface::new();
    let root = Inspector::new(&sample(1, "x"), &mut ui, registry(), None, 7);
    assert_eq!(root, Handle(3));
    assert_eq!(ui.len(), 4);
    assert_eq!(ui.node(Handle(0)).parent, Some(root));
    assert_eq!(ui.node(Handle(1)).parent, Some(Handle(2)));
    assert_eq!(ui.node(Handle(2)).parent, Some(root));
    assert_eq!(ui.node(root).parent, None);
    assert_eq!(nested_context(&ui, root).entries.len(), 2);
}

#[test]
fn every_level_has_one_binding_per_field() {
    let mut ui = UserInterface::new();
    let object = three_levels();
    let root = Inspector::new(&object, &mut ui, registry(), None, 0);
    let top = nested_context(&ui, root);
    assert_eq!(top.entries.len(), 3);
    let mid = nested_context(&ui, top.entries[1].property_editor);
    assert_eq!(mid.entries.len(), 3);
    let low = nested_context(&ui, mid.entries[1].property_editor);
    assert_eq!(low.entries.len(), 2);
    let names: Vec<&str> = low.entries.iter().map(|e| e.property_name.as_str()).collect();
    assert_eq!(names, vec!["x", "y"]);
    // flag, n, x, y, low, s, mid, last, root
    assert_eq!(ui.len(), 9);
    let handles: Vec<usize> = top.entries.iter().map(|e| e.property_editor.0).collect();
    assert_eq!(handles, vec![0, 6, 7]);
    let handles: Vec<usize> = mid.entries.iter().map(|e| e.property_editor.0).collect();
    assert_eq!(handles, vec![1, 4, 5]);
    let handles: Vec<usize> = low.entries.iter().map(|e| e.property_editor.0).collect();
    assert_eq!(handles, vec![2, 3]);
    assert_eq!(root, Handle(8));
}

#[test]
fn object_without_fields_has_no_bindings() {
    let mut ui = UserInterface::new();
    let object = Object { type_id: OUTER, fields: vec![] };
    let context = InspectorContext::from_object(&object, &mut ui, registry(), None, 0);
    assert!(context.entries.is_empty());
    assert_eq!(ui.len(), 0);
    let root = Inspector::new(&object, &mut ui, registry(), None, 0);
    assert_eq!(root, Handle(0));
    assert_eq!(ui.len(), 1);
}

#[test]
fn building_appends_to_an_interface_in_use() {
    let mut ui = UserInterface::new();
    let first = ui.add_node(UiNode::new(Widget::Placeholder));
    assert_eq!(first, Handle(0));
    let context = InspectorContext::from_object(&sample(3, "q"), &mut ui, registry(), None, 0);
    assert_eq!(context.entries[0].property_editor, Handle(1));
    assert_eq!(context.entries[1].property_editor, Handle(3));
    assert!(matches!(ui.node(first).widget, Widget::Placeholder));
    assert_eq!(ui.node(first).parent, None);
}

#[test]
fn missing_editor_spares_the_sibling() {
    let mut ui = UserInterface::new();
    let object = Object {
        type_id: OUTER,
        fields: vec![
            nested("foo", Object { type_id: FOO, fields: vec![leaf("z", Primitive::Bool(true))] }),
            leaf("n", Primitive::I32(5)),
        ],
    };
    let context = InspectorContext::from_object(&object, &mut ui, registry(), None, 0);
    assert_eq!(context.entries.len(), 2);
    let missing = InspectorError::MissingEditor {
        property_name: "foo".to_string(),
        type_id: TypeId::Object(FOO),
    };
    assert_eq!(context.entries[0].property_editor_definition, Err(missing.clone()));
    assert!(matches!(ui.node(context.entries[0].property_editor).widget, Widget::Placeholder));
    assert_eq!(context.entries[1].property_editor_definition, Ok(primitive(PrimitiveKind::I32)));
    assert!(matches!(
        ui.node(context.entries[1].property_editor).widget,
        Widget::Editor(Primitive::I32(5))
    ));
    // one placeholder, one editor: nothing was built for the fields of `foo`
    assert_eq!(ui.len(), 2);
    assert_eq!(context.build_errors(), vec![missing]);
}

#[test]
fn missing_leaf_editor_inside_a_nested_object() {
    let mut container = PropertyEditorDefinitionContainer::new();
    container.insert(primitive(PrimitiveKind::I32));
    container.insert(inspectable(INNER));
    let mut ui = UserInterface::new();
    let context = InspectorContext::from_object(&sample(1, "x"), &mut ui, Rc::new(container), None, 0);
    assert!(context.build_errors().is_empty());
    let inner = nested_context(&ui, context.entries[1].property_editor);
    assert_eq!(
        inner.build_errors(),
        vec![InspectorError::MissingEditor {
            property_name: "c".to_string(),
            type_id: TypeId::Primitive(PrimitiveKind::Str),
        }]
    );
    assert_eq!(inner.entries.len(), 1);
    assert!(matches!(ui.node(inner.entries[0].property_editor).widget, Widget::Placeholder));
}

#[test]
fn nested_inspector_inherits_registry_environment_and_mark() {
    let mut ui = UserInterface::new();
    let definitions = registry();
    let environment = Some(InspectorEnvironment { id: 42 });
    let context =
        InspectorContext::from_object(&sample(1, "x"), &mut ui, definitions.clone(), environment, 5);
    assert_eq!(context.environment, environment);
    assert_eq!(context.sync_flag, 5);
    assert!(Rc::ptr_eq(&context.property_definitions, &definitions));
    let inner = nested_context(&ui, context.entries[1].property_editor);
    assert_eq!(inner.environment, environment);
    assert_eq!(inner.sync_flag, 5);
    assert!(Rc::ptr_eq(&inner.property_definitions, &definitions));
    // the registry is shared, not copied: the two contexts and this test hold it
    assert_eq!(Rc::strong_count(&definitions), 3);
}

#[test]
fn cloned_context_shares_the_registry() {
    let mut ui = UserInterface::new();
    let definitions = registry();
    let context = InspectorContext::from_object(
        &Object { type_id: OUTER, fields: vec![leaf("a", Primitive::I32(1))] },
        &mut ui,
        definitions.clone(),
        None,
        1,
    );
    assert_eq!(Rc::strong_count(&definitions), 2);
    let copy = context.clone();
    assert_eq!(Rc::strong_count(&definitions), 3);
    assert!(Rc::ptr_eq(&copy.property_definitions, &definitions));
    assert_eq!(copy.entries.len(), 1);
    assert_eq!(copy.entries[0].property_name, "a");
    assert_eq!(copy.entries[0].property_editor, context.entries[0].property_editor);
    assert_eq!(copy.sync_flag, 1);
}

#[test]
fn composite_create_instance_builds_a_nested_inspector_without_title() {
    let mut ui = UserInterface::new();
    let value = Value::Object(Object {
        type_id: INNER,
        fields: vec![leaf("c", Primitive::Str("x".to_string()))],
    });
    let info = PropertyInfo { name: "b", owner_type_id: TypeId::Object(OUTER), value: &value };
    let definition = InspectablePropertyEditorDefinition::new(INNER);
    let instance = definition
        .create_instance(PropertyEditorBuildContext {
            build_context: &mut ui,
            property_info: &info,
            environment: None,
            definition_container: registry(),
            sync_flag: 3,
        })
        .expect("the field holds an object of the editor's type");
    assert_eq!(instance.title, "");
    assert_eq!(instance.editor, Handle(1));
    assert_eq!(nested_context(&ui, instance.editor).entries.len(), 1);
    assert_eq!(nested_context(&ui, instance.editor).sync_flag, 3);
    assert_eq!(ui.node(Handle(0)).parent, Some(Handle(1)));
}

#[test]
fn composite_create_instance_refuses_another_type() {
    let mut ui = UserInterface::new();
    let definition = InspectablePropertyEditorDefinition::new(INNER);
    let other = Value::Object(Object { type_id: OUTER, fields: vec![] });
    let info = PropertyInfo { name: "b", owner_type_id: TypeId::Object(OUTER), value: &other };
    let refused = definition.create_instance(PropertyEditorBuildContext {
        build_context: &mut ui,
        property_info: &info,
        environment: None,
        definition_container: registry(),
        sync_flag: 0,
    });
    assert_eq!(
        refused,
        Err(InspectorError::TypeMismatch {
            property_name: "b".to_string(),
            expected_type_id: TypeId::Object(INNER),
            actual_type_id: TypeId::Object(OUTER),
        })
    );
    assert_eq!(ui.len(), 0);
    let number = Value::Primitive(Primitive::I32(1));
    let info = PropertyInfo { name: "n", owner_type_id: TypeId::Object(OUTER), value: &number };
    let refused = definition.create_instance(PropertyEditorBuildContext {
        build_context: &mut ui,
        property_info: &info,
        environment: None,
        definition_container: registry(),
        sync_flag: 0,
    });
    assert_eq!(
        refused,
        Err(InspectorError::TypeMismatch {
            property_name: "n".to_string(),
            expected_type_id: TypeId::Object(INNER),
            actual_type_id: TypeId::Primitive(PrimitiveKind::I32),
        })
    );
    assert_eq!(ui.len(), 0);
}

#[test]
fn leaf_create_instance_shows_the_value_under_the_field_name() {
    let mut ui = UserInterface::new();
    let value = Value::Primitive(Primitive::U64(77));
    let info = PropertyInfo { name: "count", owner_type_id: TypeId::Object(OUTER), value: &value };
    let definition = PrimitivePropertyEditorDefinition::new(PrimitiveKind::U64);
    let instance = definition
        .create_instance(PropertyEditorBuildContext {
            build_context: &mut ui,
            property_info: &info,
            environment: None,
            definition_container: registry(),
            sync_flag: 0,
        })
        .expect("the field holds a value of the editor's kind");
    assert_eq!(instance.title, "count");
    assert_eq!(instance.editor, Handle(0));
    assert!(matches!(ui.node(Handle(0)).widget, Widget::Editor(Primitive::U64(77))));
    let wrong = PrimitivePropertyEditorDefinition::new(PrimitiveKind::Bool);
    let refused = wrong.create_instance(PropertyEditorBuildContext {
        build_context: &mut ui,
        property_info: &info,
        environment: None,
        definition_container: registry(),
        sync_flag: 0,
    });
    assert_eq!(
        refused,
        Err(InspectorError::TypeMismatch {
            property_name: "count".to_string(),
            expected_type_id: TypeId::Primitive(PrimitiveKind::Bool),
            actual_type_id: TypeId::Primitive(PrimitiveKind::U64),
        })
    );
    assert_eq!(ui.len(), 1);
}

#[test]
fn definitions_report_their_type_and_layout() {
    let composite = InspectablePropertyEditorDefinition::new(INNER);
    assert_eq!(composite.description(), "InspectablePropertyEditorDefinition\n");
    assert_eq!(InspectablePropertyEditorDefinition::new(OUTER).description(), composite.description());
    assert_eq!(composite.value_type_id(), TypeId::Object(INNER));
    assert_eq!(composite.layout(), Layout::Vertical);
    assert_eq!(inspectable(INNER).value_type_id(), TypeId::Object(INNER));
    assert_eq!(inspectable(INNER).layout(), Layout::Vertical);
    let leaf = PrimitivePropertyEditorDefinition::new(PrimitiveKind::Str);
    assert_eq!(leaf.value_type_id(), TypeId::Primitive(PrimitiveKind::Str));
    assert_eq!(leaf.layout(), Layout::Horizontal);
    assert_eq!(primitive(PrimitiveKind::Str).layout(), Layout::Horizontal);
    assert_ne!(
        InspectablePropertyEditorDefinition::new(OUTER).value_type_id(),
        InspectablePropertyEditorDefinition::new(INNER).value_type_id()
    );
}

#[test]
fn registry_keeps_one_definition_per_type() {
    let mut container = PropertyEditorDefinitionContainer::new();
    assert_eq!(container.get(TypeId::Object(INNER)), None);
    assert_eq!(container.insert(inspectable(INNER)), None);
    assert_eq!(container.insert(primitive(PrimitiveKind::I32)), None);
    assert_eq!(container.get(TypeId::Object(INNER)), Some(inspectable(INNER)));
    assert_eq!(container.get(TypeId::Primitive(PrimitiveKind::I32)), Some(primitive(PrimitiveKind::I32)));
    assert_eq!(container.get(TypeId::Object(OUTER)), None);
    assert_eq!(container.get(TypeId::Primitive(PrimitiveKind::I64)), None);
    // a second definition for the same type takes the place of the first
    assert_eq!(container.insert(inspectable(INNER)), Some(inspectable(INNER)));
    assert_eq!(container.get(TypeId::Object(INNER)), Some(inspectable(INNER)));
    // object types 0..5 do not collide with the primitive kinds
    assert_eq!(container.get(TypeId::Object(1)), None);
    assert_eq!(container.insert(inspectable(1)), None);
    assert_eq!(container.get(TypeId::Primitive(PrimitiveKind::I32)), Some(primitive(PrimitiveKind::I32)));
    assert_eq!(container.get(TypeId::Object(1)), Some(inspectable(1)));
}

#[test]
fn type_keys_are_distinct() {
    let ids = [
        TypeId::Primitive(PrimitiveKind::Bool),
        TypeId::Primitive(PrimitiveKind::I32),
        TypeId::Primitive(PrimitiveKind::I64),
        TypeId::Primitive(PrimitiveKind::U32),
        TypeId::Primitive(PrimitiveKind::U64),
        TypeId::Primitive(PrimitiveKind::Str),
        TypeId::Object(0),
        TypeId::Object(5),
        TypeId::Object(u64::MAX),
    ];
    let keys: Vec<u128> = ids.iter().map(|id| id.key()).collect();
    assert_eq!(keys, vec![0, 1, 2, 3, 4, 5, 6, 11, 6 + u64::MAX as u128]);
    assert_eq!(PrimitiveKind::Str.index(), 5);
}

#[test]
fn properties_reflect_the_fields_in_order() {
    let object = sample(4, "w");
    let infos = object.properties();
    assert_eq!(infos.len(), 2);
    assert_eq!(infos[0].name, "a");
    assert_eq!(infos[0].owner_type_id, TypeId::Object(OUTER));
    assert_eq!(infos[0].value, &Value::Primitive(Primitive::I32(4)));
    assert_eq!(infos[1].name, "b");
    assert_eq!(infos[1].value.type_id(), TypeId::Object(INNER));
    assert_eq!(object.identity(), TypeId::Object(OUTER));
    assert_eq!(infos[0].cast_value(TypeId::Primitive(PrimitiveKind::I32)), Ok(infos[0].value));
    assert_eq!(
        infos[0].cast_value(TypeId::Primitive(PrimitiveKind::I64)),
        Err(InspectorError::TypeMismatch {
            property_name: "a".to_string(),
            expected_type_id: TypeId::Primitive(PrimitiveKind::I64),
            actual_type_id: TypeId::Primitive(PrimitiveKind::I32),
        })
    );
    assert_eq!(infos[1].cast_value(TypeId::Object(INNER)), Ok(infos[1].value));
}

#[test]
fn addressable_objects_have_distinct_field_names_at_every_level() {
    assert!(sample(1, "x").is_addressable());
    assert!(three_levels().is_addressable());
    assert!(Object { type_id: OUTER, fields: vec![] }.is_addressable());
    let twice = Object {
        type_id: OUTER,
        fields: vec![leaf("a", Primitive::I32(1)), leaf("b", Primitive::I32(2)), leaf("a", Primitive::I32(3))],
    };
    assert!(!twice.is_addressable());
    let deep = Object {
        type_id: OUTER,
        fields: vec![
            leaf("a", Primitive::I32(1)),
            nested(
                "b",
                Object {
                    type_id: INNER,
                    fields: vec![leaf("c", Primitive::Bool(true)), leaf("c", Primitive::Bool(false))],
                },
            ),
        ],
    };
    assert!(!deep.is_addressable());
    // the same name at two levels is no clash
    let shadow = Object {
        type_id: OUTER,
        fields: vec![nested("a", Object { type_id: INNER, fields: vec![leaf("a", Primitive::I32(1))] })],
    };
    assert!(shadow.is_addressable());
}

#[test]
fn primitives_compare_by_kind_and_value() {
    assert!(Primitive::I32(1).same_as(&Primitive::I32(1)));
    assert!(!Primitive::I32(1).same_as(&Primitive::I32(2)));
    assert!(!Primitive::I32(1).same_as(&Primitive::I64(1)));
    assert!(Primitive::Str("a".to_string()).same_as(&Primitive::Str("a".to_string())));
    assert!(!Primitive::Str("a".to_string()).same_as(&Primitive::Str("b".to_string())));
    assert_eq!(Primitive::Bool(true).kind(), PrimitiveKind::Bool);
    assert_eq!(Primitive::U32(1).kind(), PrimitiveKind::U32);
    assert_eq!(Primitive::Str("a".to_string()).clone(), Primitive::Str("a".to_string()));
}

#[test]
fn builder_without_context_builds_an_empty_inspector() {
    let mut ui = UserInterface::new();
    let handle = InspectorBuilder::new().build(&mut ui);
    assert_eq!(handle, Handle(0));
    let context = nested_context(&ui, handle);
    assert!(context.entries.is_empty());
    assert_eq!(context.sync_flag, 0);
    assert_eq!(context.environment, None);
    assert_eq!(context.property_definitions.get(TypeId::Primitive(PrimitiveKind::I32)), None);
}

#[test]
fn attach_rebuilds_the_bindings_for_another_shape() {
    let mut ui = UserInterface::new();
    let root = Inspector::new(&sample(1, "x"), &mut ui, registry(), Some(InspectorEnvironment { id: 8 }), 4);
    assert_eq!(ui.len(), 4);
    let other = Object {
        type_id: INNER,
        fields: vec![leaf("c", Primitive::Str("z".to_string())), leaf("d", Primitive::Bool(false))],
    };
    assert!(Inspector::attach(root, &other, &mut ui));
    assert_eq!(ui.len(), 6);
    let context = nested_context(&ui, root);
    assert_eq!(context.entries.len(), 2);
    assert_eq!(context.entries[0].property_name, "c");
    assert_eq!(context.entries[0].property_editor, Handle(4));
    assert_eq!(context.entries[1].property_name, "d");
    assert_eq!(context.entries[1].property_editor, Handle(5));
    assert_eq!(context.entries[0].property_owner_type_id, TypeId::Object(INNER));
    assert_eq!(context.sync_flag, 4);
    assert_eq!(context.environment, Some(InspectorEnvironment { id: 8 }));
    assert_eq!(ui.node(Handle(4)).parent, Some(root));
    assert_eq!(ui.node(Handle(5)).parent, Some(root));
    assert_eq!(ui.node(root).parent, None);
    assert_eq!(context.clone().sync(&other, &mut ui), Ok(()));
    assert_eq!(ui.pending(), 0);
}

#[test]
fn attach_needs_an_inspector() {
    let mut ui = UserInterface::new();
    let context = InspectorContext::from_object(&sample(1, "x"), &mut ui, registry(), None, 0);
    let editor = context.entries[0].property_editor;
    assert!(!Inspector::attach(editor, &sample(2, "y"), &mut ui));
    assert!(!Inspector::attach(Handle(50), &sample(2, "y"), &mut ui));
    assert_eq!(ui.len(), 3);
    assert!(matches!(ui.node(editor).widget, Widget::Editor(Primitive::I32(1))));
}
