use property_preview::components::{
    extract_definition_location, list_components, sort_items, ComponentInformation,
    ComponentItem, ComponentListItem, ComponentLocation,
};
use property_preview::paths::{common_prefix, join, path_before, sort_order};
use property_preview::preview::{
    create_ui, create_ui_with_styles, show_document_position, ui_set_known_components,
    PreviewUi,
};
use property_preview::styles::{choose_style, known_styles};

fn path(text: &str) -> Vec<String> {
    text.split('/').map(|s| s.to_string()).collect()
}

fn builtin(name: &str, category: &str) -> ComponentInformation {
    ComponentInformation {
        name: name.to_string(),
        category: category.to_string(),
        is_global: false,
        is_builtin: true,
        is_std_widget: false,
        is_exported: true,
        defined_at: None,
    }
}

fn widget(name: &str, category: &str) -> ComponentInformation {
    ComponentInformation { is_builtin: false, is_std_widget: true, ..builtin(name, category) }
}

fn in_file(name: &str, file: &str) -> ComponentInformation {
    ComponentInformation {
        is_builtin: false,
        is_exported: false,
        defined_at: Some(ComponentLocation {
            url: format!("file://{file}"),
            file_name: file.rsplit('/').next().unwrap().to_string(),
            library: None,
            path: path(file),
        }),
        ..builtin(name, "")
    }
}

fn in_library(name: &str, library: &str) -> ComponentInformation {
    ComponentInformation {
        is_builtin: false,
        defined_at: Some(ComponentLocation {
            url: format!("builtin:/@{library}"),
            file_name: String::new(),
            library: Some(library.to_string()),
            path: vec![],
        }),
        ..builtin(name, "")
    }
}

fn known() -> Vec<ComponentInformation> {
    vec![
        widget("Slider", "Widgets"),
        builtin("Text", "Basic"),
        in_file("Main", "/project/ui/main.slint"),
        ComponentInformation { is_global: true, ..builtin("Palette", "Globals") },
        builtin("Rectangle", "Basic"),
        in_file("Dialog", "/project/ui/dialogs/about.slint"),
        in_library("Chart", "charts/line.slint"),
        widget("Button", "Widgets"),
        in_file("About", "/project/ui/dialogs/about.slint"),
        builtin("Flickable", "Advanced"),
        in_library("Axis", "charts/line.slint"),
        in_file("Header", "/project/ui/header.slint"),
        widget("TabWidget", "Containers"),
    ]
}

fn shape(list: &[ComponentListItem]) -> Vec<(&str, &str, Vec<(&str, i32)>)> {
    list.iter()
        .map(|entry| {
            (
                entry.category.as_str(),
                entry.file_url.as_str(),
                entry.components.iter().map(|c| (c.name.as_str(), c.index)).collect(),
            )
        })
        .collect()
}

#[test]
fn components_are_listed_by_origin() {
    let list = list_components(&known(), 5);
    assert_eq!(
        shape(&list),
        vec![
            ("Advanced", "", vec![("Flickable", 9)]),
            ("Basic", "", vec![("Rectangle", 4), ("Text", 1)]),
            ("Containers", "", vec![("TabWidget", 12)]),
            ("Widgets", "", vec![("Button", 7), ("Slider", 0)]),
            ("@charts/line.slint", "", vec![("Axis", 10), ("Chart", 6)]),
            (
                "dialogs/about.slint",
                "file:///project/ui/dialogs/about.slint",
                vec![("About", 8), ("Dialog", 5)]
            ),
            ("header.slint", "file:///project/ui/header.slint", vec![("Header", 11)]),
            ("main.slint", "file:///project/ui/main.slint", vec![("Main", 2)]),
        ]
    );
    let dialog = &list[5].components[1];
    assert_eq!(
        dialog,
        &ComponentItem {
            name: "Dialog".to_string(),
            index: 5,
            defined_at: "file:///project/ui/dialogs/about.slint".to_string(),
            pretty_location: "about.slint".to_string(),
            is_user_defined: true,
            is_currently_shown: true,
            is_exported: false,
        }
    );
    let text = &list[1].components[1];
    assert!(!text.is_user_defined);
    assert!(!text.is_currently_shown);
    assert!(text.is_exported);
    assert_eq!(text.defined_at, "");
    assert!(list_components(&vec![], 0).is_empty());
}

#[test]
fn a_single_file_is_shown_by_its_name() {
    let list = list_components(&vec![in_file("Main", "/project/ui/main.slint")], 0);
    assert_eq!(
        shape(&list),
        vec![("main.slint", "file:///project/ui/main.slint", vec![("Main", 0)])]
    );
    // A location without a file path keeps the empty name.
    let mut nowhere = in_file("Odd", "/x");
    nowhere.defined_at.as_mut().unwrap().path = vec![];
    let list = list_components(&vec![nowhere], 3);
    assert_eq!(shape(&list), vec![("", "file:///x", vec![("Odd", 0)])]);
}

#[test]
fn the_location_of_a_definition_is_read_off() {
    assert_eq!(
        extract_definition_location(&in_file("Main", "/project/ui/main.slint")),
        ("file:///project/ui/main.slint".to_string(), "main.slint".to_string())
    );
    assert_eq!(extract_definition_location(&builtin("Text", "Basic")), (String::new(), String::new()));
}

#[test]
fn paths_are_ordered_component_by_component() {
    assert!(path_before(&path("a/b"), &path("a-b")));
    assert!(!path_before(&path("a-b"), &path("a/b")));
    assert!(path_before(&path("a"), &path("a/b")));
    assert!(!path_before(&path("a/b"), &path("a/b")));
    assert!(path_before(&vec![], &path("a")));
    assert!(!path_before(&path("a"), &vec![]));
    assert_eq!(common_prefix(&path("/a/b/c"), &path("/a/b/d/e")), path("/a/b"));
    assert_eq!(common_prefix(&path("x/y"), &path("z")), Vec::<String>::new());
    assert_eq!(common_prefix(&path("x/y"), &path("x/y")), path("x/y"));
    assert_eq!(join(&path("/a/b")), "/a/b");
    assert_eq!(join(&path("a")), "a");
    assert_eq!(join(&vec![]), "");
    let keys = vec![path("b"), path("a/z"), path("a"), path("b"), path("a-z"), path("a")];
    assert_eq!(sort_order(&keys), vec![2, 5, 1, 4, 0, 3]);
}

#[test]
fn components_of_one_name_keep_their_order() {
    let item = |name: &str, index| ComponentItem {
        name: name.to_string(),
        index,
        defined_at: String::new(),
        pretty_location: String::new(),
        is_user_defined: false,
        is_currently_shown: false,
        is_exported: false,
    };
    let sorted = sort_items(&vec![item("b", 0), item("a", 1), item("b", 2), item("a", 3)]);
    let indices: Vec<i32> = sorted.iter().map(|i| i.index).collect();
    assert_eq!(indices, vec![1, 3, 0, 2]);
}

fn styles(names: &[&str]) -> Vec<String> {
    names.iter().map(|s| s.to_string()).collect()
}

#[test]
fn the_known_styles_are_sorted_and_qt_needs_the_native_style() {
    let available = styles(&["material", "fluent", "qt", "cupertino", "cosmic"]);
    assert_eq!(
        known_styles(&available, false),
        styles(&["cosmic", "cupertino", "fluent", "material", "native"])
    );
    assert_eq!(
        known_styles(&available, true),
        styles(&["cosmic", "cupertino", "fluent", "material", "native", "qt"])
    );
    assert_eq!(known_styles(&vec![], true), styles(&["native"]));
}

#[test]
fn an_unknown_style_falls_back_to_native() {
    let known = styles(&["cosmic", "fluent", "native"]);
    assert_eq!(choose_style("fluent".to_string(), &known), "fluent");
    assert_eq!(choose_style("qt".to_string(), &known), "native");
    assert_eq!(choose_style(String::new(), &known), "native");

    let available = styles(&["fluent", "qt"]);
    let ui = create_ui_with_styles("qt".to_string(), true, &available, false);
    assert_eq!(ui.current_style, "native");
    assert!(ui.experimental);
    assert_eq!(ui.known_styles, styles(&["fluent", "native"]));
    assert!(ui.properties.is_empty());
    let ui = create_ui_with_styles("qt".to_string(), false, &available, true);
    assert_eq!(ui.current_style, "qt");
    assert!(!ui.experimental);
    assert_eq!(ui.known_styles, styles(&["fluent", "native", "qt"]));
}

#[test]
fn the_component_list_is_shown() {
    let mut ui = PreviewUi::new();
    ui_set_known_components(&mut ui, &known(), 2);
    assert_eq!(ui.known_components, list_components(&known(), 2));
    assert!(ui.known_components[7].components[0].is_currently_shown);
    ui_set_known_components(&mut ui, &vec![], 0);
    assert!(ui.known_components.is_empty());
}

#[test]
fn a_document_position_counts_from_zero() {
    assert_eq!(show_document_position(1, 1), (0, 0));
    assert_eq!(show_document_position(12, 5), (11, 4));
    assert_eq!(show_document_position(0, 0), (0, 0));
    assert_eq!(show_document_position(-1, 3), (u32::MAX - 1, 2));
    assert_eq!(
        show_document_position(-1, 3),
        ((-1i32 as u32).saturating_sub(1), (3i32 as u32).saturating_sub(1))
    );
}

#[test]
fn the_build_offers_its_styles() {
    let ui = create_ui("fluent".to_string(), true).unwrap();
    assert_eq!(ui.current_style, "fluent");
    assert!(ui.experimental);
    assert!(ui.known_styles.len() > 1);
    assert!(ui.known_styles.contains(&"native".to_string()));
    assert!(ui.known_styles.windows(2).all(|pair| pair[0] <= pair[1]));
    assert!(ui.properties.is_empty());

    let ui = create_ui("no such style".to_string(), false).unwrap();
    assert_eq!(ui.current_style, "native");
    assert!(!ui.experimental);
}
