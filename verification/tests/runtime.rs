use property_preview::color::{Brush, Color};
use property_preview::flatten::map_value_and_type;
use property_preview::live::{RuntimeData, RuntimeField, RuntimeValue};
use property_preview::number::Number;
use property_preview::runtime::{
    duplicate_runtime_property_value_table, fill_component, is_semantic_equal,
    map_runtime_components, map_runtime_property, update_model, RuntimeProperty,
};
use property_preview::runtime_properties;
use property_preview::types::{Field, Type};
use property_preview::value::{PropertyValue, PropertyValueKind};

fn json(value: &serde_json::Value) -> String {
    serde_json::to_string_pretty(value).unwrap()
}

fn number_value(value: f64) -> RuntimeValue {
    let shown = if value.fract() == 0.0 {
        serde_json::Value::from(value as i64)
    } else {
        serde_json::Value::from(value)
    };
    RuntimeValue {
        code: json(&shown),
        data: RuntimeData::Number {
            value: Number::from_bits(value.to_bits()),
            text: format!("{}", value as f32),
        },
    }
}

fn text_value(text: &str) -> RuntimeValue {
    RuntimeValue { code: json(&serde_json::Value::from(text)), data: RuntimeData::Text(text.into()) }
}

fn bool_value(value: bool) -> RuntimeValue {
    RuntimeValue { code: json(&serde_json::Value::from(value)), data: RuntimeData::Bool(value) }
}

fn color_value(color: Color) -> RuntimeValue {
    RuntimeValue {
        code: json(&serde_json::Value::from(color.to_text())),
        data: RuntimeData::Color(color),
    }
}

fn to_json(value: &RuntimeValue) -> serde_json::Value {
    serde_json::from_str(&value.code).unwrap()
}

fn array_value(items: Vec<RuntimeValue>) -> RuntimeValue {
    let shown = serde_json::Value::Array(items.iter().map(to_json).collect());
    RuntimeValue { code: json(&shown), data: RuntimeData::Array(items) }
}

fn struct_value(fields: Vec<(&str, RuntimeValue)>) -> RuntimeValue {
    let mut shown = serde_json::Map::new();
    for (name, value) in &fields {
        shown.insert(name.to_string(), to_json(value));
    }
    RuntimeValue {
        code: json(&serde_json::Value::Object(shown)),
        data: RuntimeData::Struct(
            fields
                .into_iter()
                .map(|(name, value)| RuntimeField { name: name.to_string(), value })
                .collect(),
        ),
    }
}

fn struct_type(fields: Vec<(&str, Type)>) -> Type {
    Type::Struct(fields.into_iter().map(|(name, ty)| Field { name: name.to_string(), ty }).collect())
}

fn array_type(element: Type) -> Type {
    Type::Array(Box::new(element))
}

fn foo_struct() -> Type {
    struct_type(vec![
        ("first", struct_type(vec![("c1-1", Type::String), ("c1-2", Type::Int32)])),
        ("second", struct_type(vec![("c2-1", Type::String), ("c2-2", Type::Int32)])),
    ])
}

fn foo_value() -> RuntimeValue {
    struct_value(vec![
        (
            "first",
            struct_value(vec![("c1-1", text_value("first of a kind")), ("c1-2", number_value(23.))]),
        ),
        (
            "second",
            struct_value(vec![
                ("c2-1", text_value("second of a kind")),
                ("c2-2", number_value(42.)),
            ]),
        ),
    ])
}

fn generate_runtime_property(
    visibility: &str,
    ty: Type,
    value: RuntimeValue,
) -> runtime_properties::RuntimeProperty {
    runtime_properties::RuntimeProperty {
        name: "test".to_string(),
        ty,
        value: Some(value),
        is_property: true,
        has_getter: visibility == "out" || visibility == "in-out",
        has_setter: visibility == "in" || visibility == "in-out",
    }
}

struct Expected {
    name: &'static str,
    has_getter: bool,
    has_setter: bool,
    is_array: bool,
    prefer_json: bool,
    header: Vec<&'static str>,
    array_values: Vec<Vec<PropertyValue>>,
}

fn validate_rp(visibility: &str, ty: Type, value: RuntimeValue, expected: Expected) {
    let rp = generate_runtime_property(visibility, ty, value);

    let rp = map_runtime_property(&rp).unwrap();

    assert_eq!(rp.name, expected.name);
    assert_eq!(rp.has_getter, expected.has_getter);
    assert_eq!(rp.has_setter, expected.has_setter);
    assert_eq!(rp.is_array, expected.is_array);
    assert_eq!(rp.prefer_json, expected.prefer_json);

    assert_eq!(rp.header, expected.header);

    assert_eq!(rp.array_values.len(), expected.array_values.len());
    for (rr, er) in rp.array_values.iter().zip(expected.array_values.iter()) {
        assert_eq!(rr.len(), er.len());
        assert_eq!(rr.len(), rp.header.len());
        for (r, e) in rr.iter().zip(er.iter()) {
            assert_eq!(r, e);
        }
    }
}

fn strings(items: &[&str]) -> Vec<String> {
    items.iter().map(|s| s.to_string()).collect()
}

#[test]
fn test_map_runtime_property_string() {
    validate_rp(
        "in",
        Type::String,
        text_value("Test"),
        Expected {
            name: "test",
            has_getter: false,
            has_setter: true,
            is_array: false,
            prefer_json: false,
            header: vec![""],
            array_values: vec![vec![PropertyValue {
                code: "\"Test\"".into(),
                kind: PropertyValueKind::String,
                value_string: "Test".into(),
                ..Default::default()
            }]],
        },
    );
}

#[test]
fn test_map_runtime_property_length() {
    validate_rp(
        "in",
        Type::LogicalLength,
        number_value(100.0),
        Expected {
            name: "test",
            has_getter: false,
            has_setter: true,
            is_array: false,
            prefer_json: false,
            header: vec![""],
            array_values: vec![vec![PropertyValue {
                code: "100".into(),
                kind: PropertyValueKind::Float,
                value_float: Number::from_bits(100.0f64.to_bits()),
                value_string: "100px".into(),
                visual_items: strings(&["px", "cm", "mm", "in", "pt", "phx", "rem"]),
                ..Default::default()
            }]],
        },
    );
}

#[test]
fn test_map_runtime_property_duration() {
    validate_rp(
        "in",
        Type::Duration,
        number_value(100000.0),
        Expected {
            name: "test",
            has_getter: false,
            has_setter: true,
            is_array: false,
            prefer_json: false,
            header: vec![""],
            array_values: vec![vec![PropertyValue {
                code: "100000".into(),
                kind: PropertyValueKind::Float,
                value_float: Number::from_bits(100000.0f64.to_bits()),
                value_string: "100000ms".into(),
                visual_items: strings(&["s", "ms"]),
                default_selection: 1,
                ..Default::default()
            }]],
        },
    );
}

#[test]
fn test_map_runtime_property_angle() {
    validate_rp(
        "in",
        Type::Angle,
        number_value(36000.0),
        Expected {
            name: "test",
            has_getter: false,
            has_setter: true,
            is_array: false,
            prefer_json: false,
            header: vec![""],
            array_values: vec![vec![PropertyValue {
                code: "36000".into(),
                kind: PropertyValueKind::Float,
                value_float: Number::from_bits(36000.0f64.to_bits()),
                value_string: "36000deg".into(),
                visual_items: strings(&["deg", "grad", "turn", "rad"]),
                ..Default::default()
            }]],
        },
    );
}

#[test]
fn test_map_runtime_property_percent() {
    validate_rp(
        "in",
        Type::Percent,
        number_value(10.0),
        Expected {
            name: "test",
            has_getter: false,
            has_setter: true,
            is_array: false,
            prefer_json: false,
            header: vec![""],
            array_values: vec![vec![PropertyValue {
                code: "10".into(),
                kind: PropertyValueKind::Float,
                value_float: Number::from_bits(10.0f64.to_bits()),
                value_string: "10%".into(),
                visual_items: strings(&["%"]),
                ..Default::default()
            }]],
        },
    );
}

#[test]
fn test_map_runtime_property_color() {
    validate_rp(
        "in",
        Type::Color,
        color_value(Color::from_argb_u8(0xff, 0xaa, 0xbb, 0xcc)),
        Expected {
            name: "test",
            has_getter: false,
            has_setter: true,
            is_array: false,
            prefer_json: false,
            header: vec![""],
            array_values: vec![vec![PropertyValue {
                code: "\"#aabbccff\"".into(),
                kind: PropertyValueKind::Color,
                value_string: "#aabbccff".into(),
                value_brush: Brush::SolidColor(Color::from_argb_u8(0xff, 0xaa, 0xbb, 0xcc)),
                ..Default::default()
            }]],
        },
    );
}

#[test]
fn test_map_runtime_property_int() {
    validate_rp(
        "in",
        Type::Int32,
        number_value(12.0),
        Expected {
            name: "test",
            has_getter: false,
            has_setter: true,
            is_array: false,
            prefer_json: false,
            header: vec![""],
            array_values: vec![vec![PropertyValue {
                code: "12".into(),
                kind: PropertyValueKind::Integer,
                value_string: "12".into(),
                value_int: 12,
                ..Default::default()
            }]],
        },
    );
}

#[test]
fn test_map_runtime_property_bool_true() {
    validate_rp(
        "out",
        Type::Bool,
        bool_value(true),
        Expected {
            name: "test",
            has_getter: true,
            has_setter: false,
            is_array: false,
            prefer_json: false,
            header: vec![""],
            array_values: vec![vec![PropertyValue {
                code: "true".into(),
                kind: PropertyValueKind::Boolean,
                value_string: "true".into(),
                value_bool: true,
                ..Default::default()
            }]],
        },
    );
}

#[test]
fn test_map_runtime_property_bool_false() {
    validate_rp(
        "in-out",
        Type::Bool,
        bool_value(false),
        Expected {
            name: "test",
            has_getter: true,
            has_setter: true,
            is_array: false,
            prefer_json: false,
            header: vec![""],
            array_values: vec![vec![PropertyValue {
                code: "false".into(),
                kind: PropertyValueKind::Boolean,
                value_string: "false".into(),
                value_bool: false,
                ..Default::default()
            }]],
        },
    );
}

#[test]
fn test_map_runtime_property_struct() {
    validate_rp(
        "in-out",
        struct_type(vec![("bar", Type::Bool), ("count", Type::Int32)]),
        struct_value(vec![("bar", bool_value(true)), ("count", number_value(23.))]),
        Expected {
            name: "test",
            has_getter: true,
            has_setter: true,
            is_array: false,
            prefer_json: false,
            header: vec!["bar", "count"],
            array_values: vec![vec![
                PropertyValue {
                    code: "true".into(),
                    kind: PropertyValueKind::Boolean,
                    value_string: "true".into(),
                    value_bool: true,
                    ..Default::default()
                },
                PropertyValue {
                    code: "23".into(),
                    kind: PropertyValueKind::Integer,
                    value_string: "23".into(),
                    value_int: 23,
                    ..Default::default()
                },
            ]],
        },
    );
}

fn foo_row() -> Vec<PropertyValue> {
    vec![
        PropertyValue {
            code: "\"first of a kind\"".into(),
            kind: PropertyValueKind::String,
            value_string: "first of a kind".into(),
            ..Default::default()
        },
        PropertyValue {
            code: "23".into(),
            kind: PropertyValueKind::Integer,
            value_string: "23".into(),
            value_int: 23,
            ..Default::default()
        },
        PropertyValue {
            code: "\"second of a kind\"".into(),
            kind: PropertyValueKind::String,
            value_string: "second of a kind".into(),
            ..Default::default()
        },
        PropertyValue {
            code: "42".into(),
            kind: PropertyValueKind::Integer,
            value_string: "42".into(),
            value_int: 42,
            ..Default::default()
        },
    ]
}

#[test]
fn test_map_runtime_property_struct_of_structs() {
    validate_rp(
        "in-out",
        foo_struct(),
        foo_value(),
        Expected {
            name: "test",
            has_getter: true,
            has_setter: true,
            is_array: false,
            prefer_json: false,
            header: vec!["first.c1-1", "first.c1-2", "second.c2-1", "second.c2-2"],
            array_values: vec![foo_row()],
        },
    );
}

#[test]
fn test_map_runtime_property_bool_array() {
    validate_rp(
        "in-out",
        array_type(Type::Bool),
        array_value(vec![bool_value(true), bool_value(false)]),
        Expected {
            name: "test",
            has_getter: true,
            has_setter: true,
            is_array: true,
            prefer_json: false,
            header: vec![""],
            array_values: vec![
                vec![PropertyValue {
                    code: "true".into(),
                    kind: PropertyValueKind::Boolean,
                    value_bool: true,
                    value_string: "true".into(),
                    ..Default::default()
                }],
                vec![PropertyValue {
                    code: "false".into(),
                    kind: PropertyValueKind::Boolean,
                    value_bool: false,
                    value_string: "false".into(),
                    ..Default::default()
                }],
            ],
        },
    );
}

#[test]
fn test_map_runtime_property_array_of_struct() {
    validate_rp(
        "in-out",
        array_type(foo_struct()),
        array_value(vec![foo_value()]),
        Expected {
            name: "test",
            has_getter: true,
            has_setter: true,
            is_array: true,
            prefer_json: false,
            header: vec!["first.c1-1", "first.c1-2", "second.c2-1", "second.c2-2"],
            array_values: vec![foo_row()],
        },
    );
}

#[test]
fn test_map_runtime_property_struct_with_array() {
    validate_rp(
        "in-out",
        struct_type(vec![("first", array_type(Type::String))]),
        struct_value(vec![(
            "first",
            array_value(vec![text_value("first of a kind"), text_value("second of a kind")]),
        )]),
        Expected {
            name: "test",
            has_getter: true,
            has_setter: true,
            is_array: false,
            prefer_json: true,
            header: vec![""],
            array_values: vec![vec![PropertyValue {
                kind: PropertyValueKind::Code,
                code: "{\n  \"first\": [\n    \"first of a kind\",\n    \"second of a kind\"\n  ]\n}"
                    .into(),
                ..Default::default()
            }]],
        },
    );
}

#[test]
fn an_array_of_arrays_is_too_complex() {
    let value = array_value(vec![
        array_value(vec![number_value(1.), number_value(2.)]),
        array_value(vec![]),
    ]);
    let mapping =
        map_value_and_type(&array_type(array_type(Type::Int32)), Some(&value), &String::new());
    assert!(mapping.is_too_complex);
    assert!(!mapping.is_array);
    assert_eq!(mapping.header, vec![""]);
    assert_eq!(
        mapping.array_values,
        vec![vec![PropertyValue::from_code("[\n  [\n    1,\n    2\n  ],\n  []\n]".to_string())]]
    );

    // Whatever the elements are, and without a value too.
    let deep = array_type(array_type(array_type(foo_struct())));
    let mapping = map_value_and_type(&deep, None, &"p".to_string());
    assert!(mapping.is_too_complex);
    assert_eq!(mapping.header, vec![""]);
    assert_eq!(mapping.array_values, vec![vec![PropertyValue::from_code(String::new())]]);

    // And so is an array of structs that hold an array.
    let ty = array_type(struct_type(vec![("a", Type::Bool), ("b", array_type(Type::Bool))]));
    let mapping = map_value_and_type(&ty, Some(&array_value(vec![])), &String::new());
    assert!(mapping.is_too_complex);
    assert_eq!(mapping.array_values, vec![vec![PropertyValue::from_code("[]".to_string())]]);
}

#[test]
fn an_array_of_scalars_has_one_column_and_a_row_for_each_element() {
    let value = array_value(vec![number_value(1.5), number_value(-2.), number_value(300.)]);
    let mapping = map_value_and_type(&array_type(Type::Float32), Some(&value), &String::new());
    assert!(mapping.is_array);
    assert!(!mapping.is_too_complex);
    assert_eq!(mapping.header, vec![""]);
    let rows: Vec<(&str, &str, f64)> = mapping
        .array_values
        .iter()
        .map(|row| {
            assert_eq!(row.len(), 1);
            assert_eq!(row[0].kind, PropertyValueKind::Float);
            (
                row[0].value_string.as_str(),
                row[0].code.as_str(),
                f64::from_bits(row[0].value_float.bits),
            )
        })
        .collect();
    assert_eq!(rows, vec![("1.5", "1.5", 1.5), ("-2", "-2", -2.0), ("300", "300", 300.0)]);

    let empty = map_value_and_type(&array_type(Type::Bool), Some(&array_value(vec![])), &String::new());
    assert!(empty.is_array);
    assert_eq!(empty.header, vec![""]);
    assert!(empty.array_values.is_empty());
}

#[test]
fn an_absent_value_gives_the_zero_of_its_type() {
    let mapping = map_value_and_type(&foo_struct(), None, &String::new());
    assert_eq!(mapping.header, vec!["first.c1-1", "first.c1-2", "second.c2-1", "second.c2-2"]);
    assert_eq!(
        mapping.array_values,
        vec![vec![
            PropertyValue { kind: PropertyValueKind::String, ..Default::default() },
            PropertyValue {
                kind: PropertyValueKind::Integer,
                value_string: "0".into(),
                ..Default::default()
            },
            PropertyValue { kind: PropertyValueKind::String, ..Default::default() },
            PropertyValue {
                kind: PropertyValueKind::Integer,
                value_string: "0".into(),
                ..Default::default()
            },
        ]]
    );
    let mapping = map_value_and_type(&Type::Float32, None, &"x".to_string());
    assert_eq!(mapping.header, vec!["x"]);
    assert_eq!(mapping.array_values[0][0].value_string, "0");
    let mapping = map_value_and_type(&Type::Color, None, &String::new());
    assert_eq!(mapping.array_values[0][0].value_string, "#00000000");
}

#[test]
fn a_value_of_another_shape_gives_the_zero_of_the_type() {
    let mapping = map_value_and_type(&Type::Int32, Some(&text_value("seven")), &String::new());
    assert_eq!(
        mapping.array_values,
        vec![vec![PropertyValue {
            kind: PropertyValueKind::Integer,
            value_string: "0".into(),
            code: "\"seven\"".into(),
            ..Default::default()
        }]]
    );
    let ty = struct_type(vec![("a", Type::Bool), ("b", Type::String)]);
    let value = struct_value(vec![("b", text_value("here")), ("c", bool_value(true))]);
    let mapping = map_value_and_type(&ty, Some(&value), &String::new());
    assert_eq!(mapping.header, vec!["a", "b"]);
    assert_eq!(mapping.array_values[0][0].value_string, "false");
    assert_eq!(mapping.array_values[0][0].code, "");
    assert_eq!(mapping.array_values[0][1].value_string, "here");
}

#[test]
fn a_type_without_an_editor_is_shown_as_text() {
    let value = RuntimeValue { code: "\"data:image/png;base64,\"".into(), data: RuntimeData::Other };
    for ty in [Type::Other, Type::Brush] {
        let mapping = map_value_and_type(&ty, Some(&value), &"icon".to_string());
        assert!(!mapping.is_too_complex);
        assert!(!mapping.is_array);
        assert_eq!(mapping.header, vec!["icon"]);
        assert_eq!(
            mapping.array_values,
            vec![vec![PropertyValue {
                kind: PropertyValueKind::Code,
                value_string: "???".into(),
                code: "\"data:image/png;base64,\"".into(),
                ..Default::default()
            }]]
        );
    }
}

#[test]
fn an_integer_is_truncated_from_the_number() {
    let mapping = map_value_and_type(&Type::Int32, Some(&number_value(-7.75)), &String::new());
    assert_eq!(mapping.array_values[0][0].value_int, -7);
    assert_eq!(mapping.array_values[0][0].value_string, "-7");
    assert_eq!(mapping.array_values[0][0].code, "-7.75");
}

fn property(name: &str, is_property: bool, value: RuntimeValue) -> runtime_properties::RuntimeProperty {
    runtime_properties::RuntimeProperty {
        name: name.to_string(),
        ty: Type::Int32,
        value: Some(value),
        is_property,
        has_getter: true,
        has_setter: true,
    }
}

fn entries(
    a: f64,
    b: f64,
) -> Vec<(runtime_properties::RuntimeComponent, Vec<runtime_properties::RuntimeProperty>)> {
    vec![
        (
            runtime_properties::RuntimeComponent::Global("Palette".to_string()),
            vec![property("accent", true, number_value(a))],
        ),
        (
            runtime_properties::RuntimeComponent::Global("Callbacks".to_string()),
            vec![property("clicked", false, number_value(0.))],
        ),
        (
            runtime_properties::RuntimeComponent::Main,
            vec![
                property("count", true, number_value(b)),
                property("reset", false, number_value(0.)),
                property("width", true, number_value(3.)),
            ],
        ),
    ]
}

#[test]
fn the_main_component_comes_first_and_callbacks_are_left_out() {
    let components = map_runtime_components(&entries(1., 2.));
    let names: Vec<(&str, &str, Vec<&str>)> = components
        .iter()
        .map(|c| {
            (
                c.component_name.as_str(),
                c.component_id.as_str(),
                c.properties.iter().map(|p| p.name.as_str()).collect(),
            )
        })
        .collect();
    assert_eq!(
        names,
        vec![("<MAIN>", "", vec!["count", "width"]), ("Palette", "Palette", vec!["accent"])]
    );
    assert!(map_runtime_property(&property("clicked", false, number_value(0.))).is_none());
    assert!(fill_component("a".into(), "b".into(), &vec![property("f", false, number_value(0.))])
        .is_none());
    assert!(map_runtime_components(&vec![]).is_empty());
}

#[test]
fn a_list_of_the_same_shape_is_patched() {
    let mut shown = map_runtime_components(&entries(1., 2.));
    shown[0].component_id = "kept".to_string();
    let handed_back = update_model(&mut shown, map_runtime_components(&entries(1., 5.)));
    assert!(handed_back.is_none());
    assert_eq!(shown[0].component_id, "kept");
    let mut expected = map_runtime_components(&entries(1., 5.));
    expected[0].component_id = "kept".to_string();
    assert_eq!(shown, expected);
    assert_eq!(shown[0].properties[0].array_values[0][0].value_int, 5);
}

#[test]
fn a_list_of_another_shape_is_replaced() {
    let mut other = entries(1., 2.);
    other[2].1[2].name = "height".to_string();
    let mut shown = map_runtime_components(&entries(1., 2.));
    let handed_back = update_model(&mut shown, map_runtime_components(&other));
    assert_eq!(handed_back, Some(map_runtime_components(&other)));
    assert_eq!(shown, map_runtime_components(&entries(1., 2.)));

    let mut fewer = entries(1., 2.);
    fewer.remove(0);
    let handed_back = update_model(&mut shown, map_runtime_components(&fewer));
    assert_eq!(handed_back, Some(map_runtime_components(&fewer)));

    let mut renamed = entries(1., 2.);
    renamed[0].0 = runtime_properties::RuntimeComponent::Global("Theme".to_string());
    let handed_back = update_model(&mut shown, map_runtime_components(&renamed));
    assert_eq!(handed_back, Some(map_runtime_components(&renamed)));

    let mut shorter = entries(1., 2.);
    shorter[2].1.remove(2);
    let handed_back = update_model(&mut shown, map_runtime_components(&shorter));
    assert_eq!(handed_back, Some(map_runtime_components(&shorter)));
}

fn shown_property(value: f64) -> RuntimeProperty {
    map_runtime_property(&property("p", true, number_value(value))).unwrap()
}

#[test]
fn properties_are_compared_by_all_they_show() {
    assert!(is_semantic_equal(&shown_property(1.), &shown_property(1.)));
    assert!(!is_semantic_equal(&shown_property(1.), &shown_property(2.)));
    let mut other = shown_property(1.);
    other.has_setter = false;
    assert!(!is_semantic_equal(&shown_property(1.), &other));
    let mut other = shown_property(1.);
    other.header[0] = "x".to_string();
    assert!(!is_semantic_equal(&shown_property(1.), &other));
    let mut other = shown_property(1.);
    other.array_values[0][0].value_string = "one".to_string();
    assert!(!is_semantic_equal(&shown_property(1.), &other));
    let mut other = shown_property(1.);
    other.array_values.push(vec![]);
    assert!(!is_semantic_equal(&shown_property(1.), &other));
    assert_eq!(shown_property(1.).clone(), shown_property(1.));
}

#[test]
fn a_table_of_values_is_copied_cell_by_cell() {
    let table = vec![foo_row(), vec![], foo_row()];
    assert_eq!(duplicate_runtime_property_value_table(&table), table);
    assert!(duplicate_runtime_property_value_table(&vec![]).is_empty());
}
