use property_preview::declarations::{
    map_property_declaration, map_property_definition, to_ui_range, PropertyDeclarations,
};
use property_preview::expression::DefaultValue;
use property_preview::syntax_nodes::Expression;
use property_preview::grouping::{compare_group_keys, group_properties, sort_rows, GroupKey};
use property_preview::model::{
    is_equal_element, ElementInformation, PropertyDeclaration, PropertyDefinition, PropertyGroup,
    PropertyInformation as Row, Range,
};
use property_preview::preview::{
    set_diagnostics, set_runtime_json_properties, set_runtime_property, ui_set_properties,
    ui_set_runtime_properties, ui_set_uses_widgets, DiagnosticLevel, DiagnosticSummary,
    PreviewUi, SetRuntimePropertyError,
};
use property_preview::properties::{
    self, CodeBlockOrExpression, DeclarationInformation, DefinitionInformation, DocumentCache,
    PropertyInformation, QueryPropertyResponse, TextRange,
};
use property_preview::runtime_properties;
use property_preview::table::{map_properties_to_ui, map_properties_with_uri, update_properties};
use property_preview::types::Type;
use property_preview::value::{PropertyValue, PropertyValueKind};
use std::cmp::Ordering;

fn property(name: &str, priority: u32, group: &str, group_priority: u32) -> PropertyInformation {
    PropertyInformation {
        name: name.to_string(),
        priority,
        ty: Type::Bool,
        ty_name: "bool".to_string(),
        declared_at: None,
        defined_at: None,
        default_value: Some(DefaultValue::BoolLiteral(true)),
        group: group.to_string(),
        group_priority,
    }
}

fn bound(mut pi: PropertyInformation, code: &str, start: u32) -> PropertyInformation {
    pi.defined_at = Some(DefinitionInformation {
        property_definition_range: TextRange { start, end: start + 20 },
        selection_range: TextRange { start: start + 1, end: start + 5 },
        code_block_or_expression: CodeBlockOrExpression {
            text: code.to_string(),
            text_range: TextRange { start: start + 7, end: start + 7 + code.len() as u32 },
            expression: Some(Expression::QualifiedName {
                text: code.to_string(),
                name: code.to_string(),
            }),
        },
    });
    pi
}

fn response(properties: Vec<PropertyInformation>) -> QueryPropertyResponse {
    QueryPropertyResponse {
        properties,
        element: Some(properties::ElementInformation {
            id: "button".to_string(),
            ty_name: "Button".to_string(),
            range: TextRange { start: 10, end: 90 },
        }),
        source_uri: "file:///project/ui/../main.slint".to_string(),
        source_version: 4,
    }
}

fn cache() -> DocumentCache {
    DocumentCache {
        versions: vec![
            ("/project/main.slint".to_string(), 4),
            ("/project/widgets.slint".to_string(), 9),
            ("/project/main.slint".to_string(), 5),
        ],
    }
}

fn sample() -> Vec<PropertyInformation> {
    let mut width = property("width", 20, "geometry", 200);
    width.declared_at = Some(DeclarationInformation {
        path: "/project/widgets.slint".to_string(),
        start_position: 33,
    });
    vec![
        property("visible", 10, "", 300),
        width,
        bound(property("enabled", 10, "", 300), "false", 40),
        property("height", 20, "geometry", 200),
        property("accessible-role", 5, "accessibility", 200),
        property("x", 10, "geometry", 200),
        property("text", 1, "", 100),
    ]
}

fn shape(groups: &[PropertyGroup]) -> Vec<(&str, Vec<&str>)> {
    groups
        .iter()
        .map(|g| (g.group_name.as_str(), g.properties.iter().map(|p| p.name.as_str()).collect()))
        .collect()
}

#[test]
fn groups_and_rows_are_sorted_by_priority_then_name() {
    let groups = group_properties(&sample());
    assert_eq!(
        shape(&groups),
        vec![
            ("", vec!["text"]),
            ("accessibility", vec!["accessible-role"]),
            ("geometry", vec!["x", "height", "width"]),
            ("", vec!["enabled", "visible"]),
        ]
    );
    let enabled = &groups[3].properties[0];
    assert_eq!(enabled.ty_name, "bool");
    assert_eq!(enabled.display_priority, 10);
    assert_eq!(enabled.value.kind, PropertyValueKind::Boolean);
    assert!(!enabled.value.value_bool);
    assert_eq!(enabled.value.code, "false");
    assert!(groups[3].properties[1].value.value_bool);
    assert!(group_properties(&vec![]).is_empty());
}

#[test]
fn group_keys_compare_by_priority_first() {
    let key = |name: &str, priority| GroupKey { name: name.to_string(), priority };
    assert_eq!(compare_group_keys(&key("b", 1), &key("a", 2)), Ordering::Less);
    assert_eq!(compare_group_keys(&key("a", 2), &key("b", 1)), Ordering::Greater);
    assert_eq!(compare_group_keys(&key("a", 2), &key("b", 2)), Ordering::Less);
    assert_eq!(compare_group_keys(&key("b", 2), &key("a", 2)), Ordering::Greater);
    assert_eq!(compare_group_keys(&key("a", 2), &key("a", 2)), Ordering::Equal);
    assert_eq!(compare_group_keys(&key("a", 2), &key("ab", 2)), Ordering::Less);
}

fn row(name: &str, display_priority: i32, code: &str) -> Row {
    Row {
        name: name.to_string(),
        ty_name: String::new(),
        value: PropertyValue::from_code(code.to_string()),
        display_priority,
    }
}

#[test]
fn rows_that_sort_alike_keep_their_order() {
    let rows = vec![
        row("b", 2, "1"),
        row("a", 2, "2"),
        row("z", 1, "3"),
        row("a", 2, "4"),
        row("b", 2, "5"),
        row("a", -1, "6"),
    ];
    let codes: Vec<String> = sort_rows(&rows).into_iter().map(|r| r.value.code).collect();
    assert_eq!(codes, vec!["6", "3", "2", "4", "1", "5"]);
    assert!(sort_rows(&vec![]).is_empty());
}

#[test]
fn the_answer_maps_to_element_declarations_and_table() {
    let (element, declarations, groups) =
        map_properties_to_ui(&cache(), &Some(response(sample()))).unwrap();
    assert_eq!(
        element,
        ElementInformation {
            id: "button".to_string(),
            ty_name: "Button".to_string(),
            // The URI in its normal form, not as it was handed over.
            source_uri: "file:///project/main.slint".to_string(),
            source_version: 4,
            range: Range { start: 10, end: 90 },
        }
    );
    assert_eq!(shape(&groups), shape(&group_properties(&sample())));

    let no_definition = PropertyDefinition {
        definition_range: Range { start: 0, end: 0 },
        selection_range: Range { start: 0, end: 0 },
        expression_range: Range { start: 0, end: 0 },
        expression_value: String::new(),
    };
    assert_eq!(
        declarations.get(&"visible".to_string()),
        Some(&PropertyDeclaration {
            defined_at: no_definition.clone(),
            source_path: String::new(),
            source_version: -1,
            range: Range { start: 0, end: 0 },
        })
    );
    assert_eq!(
        declarations.get(&"width".to_string()),
        Some(&PropertyDeclaration {
            defined_at: no_definition,
            source_path: "/project/widgets.slint".to_string(),
            source_version: 9,
            range: Range { start: 33, end: 33 },
        })
    );
    assert_eq!(
        declarations.get(&"enabled".to_string()).unwrap().defined_at,
        PropertyDefinition {
            definition_range: Range { start: 40, end: 60 },
            selection_range: Range { start: 41, end: 45 },
            expression_range: Range { start: 47, end: 52 },
            expression_value: "false".to_string(),
        }
    );
    assert_eq!(declarations.get(&"absent".to_string()), None);
}

#[test]
fn an_answer_without_element_or_with_a_bad_uri_maps_to_nothing() {
    assert!(map_properties_to_ui(&cache(), &None).is_none());

    let mut no_element = response(sample());
    no_element.element = None;
    assert!(map_properties_to_ui(&cache(), &Some(no_element)).is_none());

    let mut bad_uri = response(sample());
    bad_uri.source_uri = "not a uri".to_string();
    assert!(map_properties_to_ui(&cache(), &Some(bad_uri)).is_none());

    let mut far = response(sample());
    far.element.as_mut().unwrap().range.end = i32::MAX as u32 + 1;
    assert!(map_properties_to_ui(&cache(), &Some(far)).is_none());
    let far = map_properties_with_uri(&cache(), &response(vec![]), "x".to_string()).unwrap();
    assert_eq!(far.0.source_uri, "x");
    assert!(far.2.is_empty());
}

#[test]
fn ranges_and_versions_fall_back() {
    assert_eq!(to_ui_range(TextRange { start: 1, end: 2 }), Some(Range { start: 1, end: 2 }));
    let max = i32::MAX as u32;
    assert_eq!(
        to_ui_range(TextRange { start: max, end: max }),
        Some(Range { start: i32::MAX, end: i32::MAX })
    );
    assert_eq!(to_ui_range(TextRange { start: 0, end: max + 1 }), None);
    assert_eq!(to_ui_range(TextRange { start: u32::MAX, end: 0 }), None);

    assert_eq!(map_property_definition(&None), None);
    let mut far = bound(property("a", 0, "", 0), "true", 0).defined_at.unwrap();
    far.selection_range.end = max + 1;
    assert_eq!(map_property_definition(&Some(far)), None);

    let definition = map_property_definition(&bound(property("a", 0, "", 0), "true", 3).defined_at)
        .unwrap();
    assert_eq!(map_property_declaration(&cache(), &None, definition.clone()), None);
    let unknown =
        Some(DeclarationInformation { path: "/elsewhere.slint".to_string(), start_position: 8 });
    assert_eq!(
        map_property_declaration(&cache(), &unknown, definition.clone()),
        Some(PropertyDeclaration {
            defined_at: definition.clone(),
            source_path: "/elsewhere.slint".to_string(),
            source_version: -1,
            range: Range { start: 8, end: 8 },
        })
    );
    let known =
        Some(DeclarationInformation { path: "/project/main.slint".to_string(), start_position: 8 });
    let declaration = map_property_declaration(&cache(), &known, definition.clone()).unwrap();
    assert_eq!(declaration.source_version, 4);
    let far = Some(DeclarationInformation { path: String::new(), start_position: max + 1 });
    assert_eq!(map_property_declaration(&cache(), &far, definition), None);
    assert_eq!(cache().document_version_by_path(&"/project/widgets.slint".to_string()), Some(9));
    assert_eq!(cache().document_version_by_path(&"/".to_string()), None);
}

#[test]
fn the_later_declaration_of_a_name_counts() {
    let declaration = |source_version| PropertyDeclaration {
        defined_at: PropertyDefinition {
            definition_range: Range { start: 0, end: 0 },
            selection_range: Range { start: 0, end: 0 },
            expression_range: Range { start: 0, end: 0 },
            expression_value: String::new(),
        },
        source_path: String::new(),
        source_version,
        range: Range { start: 0, end: 0 },
    };
    let mut declarations = PropertyDeclarations::new();
    assert_eq!(declarations.get(&"a".to_string()), None);
    declarations.insert("a".to_string(), declaration(1));
    declarations.insert("b".to_string(), declaration(2));
    declarations.insert("a".to_string(), declaration(3));
    assert_eq!(declarations.get(&"a".to_string()), Some(&declaration(3)));
    assert_eq!(declarations.get(&"b".to_string()), Some(&declaration(2)));
}

#[test]
fn the_table_of_another_element_takes_the_place_of_the_shown_one() {
    let mut ui = PreviewUi::new();
    assert!(ui.properties.is_empty());
    assert!(!ui.uses_widgets);

    // First population.
    let declarations = ui_set_properties(&mut ui, &cache(), &Some(response(sample())));
    assert!(declarations.get(&"x".to_string()).is_some());
    assert_eq!(ui.current_element.id, "button");
    assert_eq!(shape(&ui.properties), shape(&group_properties(&sample())));

    // The same element: the shown table is edited in place.
    ui.properties[2].properties[0].value.value_string = "marked".to_string();
    let mut changed = sample();
    changed[3] = bound(property("height", 20, "geometry", 200), "false", 70);
    ui_set_properties(&mut ui, &cache(), &Some(response(changed)));
    assert_eq!(shape(&ui.properties), shape(&group_properties(&sample())));
    assert_eq!(ui.properties[2].properties[0].name, "x");
    assert_eq!(ui.properties[2].properties[0].value.value_string, "marked");
    assert_eq!(ui.properties[2].properties[1].name, "height");
    assert_eq!(ui.properties[2].properties[1].value.code, "false");
    assert!(!ui.properties[2].properties[1].value.value_bool);

    // Another element: the newer table is shown as it is.
    let mut other = response(sample());
    other.element.as_mut().unwrap().id = "label".to_string();
    ui_set_properties(&mut ui, &cache(), &Some(other));
    assert_eq!(ui.current_element.id, "label");
    assert_eq!(ui.properties[2].properties[0].value.value_string, "");

    // No answer: no element and an empty table.
    let declarations = ui_set_properties(&mut ui, &cache(), &None);
    assert!(declarations.get(&"x".to_string()).is_none());
    assert_eq!(ui.current_element, ElementInformation::new());
    assert!(ui.properties.is_empty());
}

#[test]
fn elements_are_told_apart_by_id_type_document_and_start() {
    let element = ElementInformation {
        id: "a".to_string(),
        ty_name: "T".to_string(),
        source_uri: "file:///a".to_string(),
        source_version: 1,
        range: Range { start: 2, end: 3 },
    };
    let with = |f: fn(&mut ElementInformation)| {
        let mut other = ElementInformation {
            id: "a".to_string(),
            ty_name: "T".to_string(),
            source_uri: "file:///a".to_string(),
            source_version: 1,
            range: Range { start: 2, end: 3 },
        };
        f(&mut other);
        other
    };
    assert!(is_equal_element(&element, &with(|_| {})));
    assert!(is_equal_element(&element, &with(|e| e.source_version = 7)));
    assert!(is_equal_element(&element, &with(|e| e.range.end = 9)));
    assert!(!is_equal_element(&element, &with(|e| e.id = "b".to_string())));
    assert!(!is_equal_element(&element, &with(|e| e.ty_name = "U".to_string())));
    assert!(!is_equal_element(&element, &with(|e| e.source_uri = "file:///b".to_string())));
    assert!(!is_equal_element(&element, &with(|e| e.range.start = 1)));
}

#[test]
fn groups_are_updated_place_by_place() {
    let group = |name: &str, rows: Vec<Row>| PropertyGroup {
        group_name: name.to_string(),
        properties: rows,
    };
    let mut current = vec![
        group("one", vec![row("a", 0, "1"), row("b", 0, "2")]),
        group("two", vec![row("c", 0, "3")]),
        group("three", vec![row("d", 0, "4")]),
    ];
    let next = vec![
        group("uno", vec![row("b", 0, "2x")]),
        group("dos", vec![row("c", 0, "3"), row("e", 0, "5")]),
    ];
    update_properties(&mut current, &next);
    assert_eq!(
        current,
        vec![
            group("one", vec![row("b", 0, "2x")]),
            group("two", vec![row("c", 0, "3"), row("e", 0, "5")]),
            group("three", vec![row("d", 0, "4")]),
        ]
    );
}

#[test]
fn diagnostics_come_to_their_worst() {
    let (error, warning, other) =
        (DiagnosticLevel::Error, DiagnosticLevel::Warning, DiagnosticLevel::Other);
    let cases = [
        (vec![], DiagnosticSummary::NothingDetected),
        (vec![other, other], DiagnosticSummary::NothingDetected),
        (vec![warning], DiagnosticSummary::Warnings),
        (vec![other, warning, other], DiagnosticSummary::Warnings),
        (vec![error], DiagnosticSummary::Errors),
        (vec![error, warning], DiagnosticSummary::Errors),
        (vec![warning, error, warning, other], DiagnosticSummary::Errors),
    ];
    for (levels, summary) in cases {
        let mut ui = PreviewUi::new();
        ui_set_uses_widgets(&mut ui, true);
        set_diagnostics(&mut ui, &levels);
        assert_eq!(ui.diagnostic_summary, summary);
        assert!(ui.uses_widgets);
        ui_set_uses_widgets(&mut ui, false);
        assert!(!ui.uses_widgets);
        assert_eq!(ui.diagnostic_summary, summary);
    }
}

#[test]
fn a_request_without_a_row_is_refused() {
    let name = "count".to_string();
    let refused = set_runtime_property(&String::new(), &name, &vec![]);
    assert_eq!(refused.unwrap_err(), SetRuntimePropertyError::NoValue);

    let table = vec![vec![PropertyValue::from_code("1".to_string())]];
    let request = set_runtime_property(&String::new(), &name, &table).unwrap();
    assert!(matches!(request.component, runtime_properties::RuntimeComponent::Main));
    assert_eq!(request.property_name, "count");
    assert_eq!(request.values, table);

    let request = set_runtime_property(&"Palette".to_string(), &name, &vec![vec![]]).unwrap();
    assert!(matches!(
        request.component,
        runtime_properties::RuntimeComponent::Global(name) if name == "Palette"
    ));
    assert_eq!(request.values, vec![Vec::<PropertyValue>::new()]);
}

#[test]
fn a_json_request_names_one_property_or_all() {
    let json = "{ \"count\": 1 }".to_string();
    let request = set_runtime_json_properties(&String::new(), &String::new(), &json);
    assert!(matches!(request.component, runtime_properties::RuntimeComponent::Main));
    assert_eq!(request.property_name, None);
    assert_eq!(request.json_string, json);

    let request = set_runtime_json_properties(&"G".to_string(), &"count".to_string(), &json);
    assert!(matches!(
        request.component,
        runtime_properties::RuntimeComponent::Global(name) if name == "G"
    ));
    assert_eq!(request.property_name, Some("count".to_string()));
}

#[test]
fn runtime_properties_are_shown_and_patched() {
    let entry = |value: bool| {
        vec![(
            runtime_properties::RuntimeComponent::Main,
            vec![runtime_properties::RuntimeProperty {
                name: "on".to_string(),
                ty: Type::Bool,
                value: Some(property_preview::live::RuntimeValue {
                    code: value.to_string(),
                    data: property_preview::live::RuntimeData::Bool(value),
                }),
                is_property: true,
                has_getter: true,
                has_setter: false,
            }],
        )]
    };
    let mut ui = PreviewUi::new();
    ui_set_runtime_properties(&mut ui, &entry(true));
    assert_eq!(ui.runtime_components.len(), 1);
    assert_eq!(ui.runtime_components[0].component_name, "<MAIN>");
    assert!(ui.runtime_components[0].properties[0].array_values[0][0].value_bool);
    ui.runtime_components[0].component_id = "kept".to_string();

    ui_set_runtime_properties(&mut ui, &entry(false));
    assert_eq!(ui.runtime_components[0].component_id, "kept");
    assert!(!ui.runtime_components[0].properties[0].array_values[0][0].value_bool);
    assert_eq!(ui.runtime_components[0].properties[0].array_values[0][0].code, "false");

    ui_set_runtime_properties(&mut ui, &vec![]);
    assert!(ui.runtime_components.is_empty());
}
