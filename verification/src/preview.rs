//! The state of the preview's user interface, and the operations that
//! bring it up to date.

use crate::components::{
    component_list, list_components, ComponentInformation, ComponentListItem,
    ComponentListItemModel,
};
use crate::declarations::PropertyDeclarations;
use crate::model::{
    is_equal_element, same_element, ElementInformation, ElementInformationModel,
    PropertyDeclarationModel, PropertyGroup, PropertyGroupModel,
};
use crate::properties::{DocumentCache, QueryPropertyResponse};
use crate::runtime::{
    map_runtime_components, runtime_components_of, runtime_update, update_model,
    RuntimeComponent, RuntimeComponentModel,
};
use crate::runtime_properties;
use crate::styles::{
    builtin_styles, choose_style, chosen_style, has_native_style, is_sorted_list_of,
    known_styles, lemma_sorted_list_has_the_candidates, style_candidates,
};
use crate::text::lex_lt;
use crate::table::{
    answer_fits, map_properties_to_ui, mapped_properties, update_properties, updated,
};
use crate::value::PropertyValue;
use vstd::prelude::*;

verus! {

/// How severe a diagnostic is.
#[derive(Clone, Copy, Debug, PartialEq, Eq, Structural)]
pub enum DiagnosticLevel {
    Error,
    Warning,
    /// Any other level.
    Other,
}

/// What the diagnostics of a build come to.
#[derive(Clone, Copy, Debug, PartialEq, Eq, Structural)]
pub enum DiagnosticSummary {
    NothingDetected,
    Warnings,
    Errors,
}

/// The state of the preview's user interface.
#[derive(Debug)]
pub struct PreviewUi {
    /// The widget style that the preview is shown in.
    pub current_style: String,
    /// Whether experimental features are shown.
    pub experimental: bool,
    /// The widget styles to choose from, in ascending order.
    pub known_styles: Vec<String>,
    /// Whether the previewed component uses widgets of the standard
    /// library.
    pub uses_widgets: bool,
    /// What the diagnostics of the last build come to.
    pub diagnostic_summary: DiagnosticSummary,
    /// The components that can be previewed or dropped, by origin.
    pub known_components: Vec<ComponentListItem>,
    /// The element whose properties are shown.
    pub current_element: ElementInformation,
    /// The property table of that element.
    pub properties: Vec<PropertyGroup>,
    /// The components of the running program, with their properties.
    pub runtime_components: Vec<RuntimeComponent>,
}

/// What the state of the user interface holds.
pub struct PreviewUiModel {
    pub current_style: Seq<char>,
    pub experimental: bool,
    pub known_styles: Seq<Seq<char>>,
    pub uses_widgets: bool,
    pub diagnostic_summary: DiagnosticSummary,
    pub known_components: Seq<ComponentListItemModel>,
    pub current_element: ElementInformationModel,
    pub properties: Seq<PropertyGroupModel>,
    pub runtime_components: Seq<RuntimeComponentModel>,
}

impl DeepView for PreviewUi {
    type V = PreviewUiModel;

    open spec fn deep_view(&self) -> PreviewUiModel {
        PreviewUiModel {
            current_style: self.current_style@,
            experimental: self.experimental,
            known_styles: self.known_styles.deep_view(),
            uses_widgets: self.uses_widgets,
            diagnostic_summary: self.diagnostic_summary,
            known_components: self.known_components.deep_view(),
            current_element: self.current_element@,
            properties: self.properties.deep_view(),
            runtime_components: self.runtime_components.deep_view(),
        }
    }
}

impl View for PreviewUi {
    type V = PreviewUiModel;

    open spec fn view(&self) -> PreviewUiModel {
        self.deep_view()
    }
}

impl PreviewUiModel {
    /// The state before anything is shown.
    pub open spec fn blank() -> PreviewUiModel {
        PreviewUiModel {
            current_style: Seq::empty(),
            experimental: false,
            known_styles: Seq::empty(),
            uses_widgets: false,
            diagnostic_summary: DiagnosticSummary::NothingDetected,
            known_components: Seq::empty(),
            current_element: ElementInformationModel::blank(),
            properties: Seq::empty(),
            runtime_components: Seq::empty(),
        }
    }
}

impl PreviewUi {
    /// The state before anything is shown.
    pub fn new() -> (ui: PreviewUi)
        ensures
            ui@ == PreviewUiModel::blank(),
    {
        let ui = PreviewUi {
            current_style: String::new(),
            experimental: false,
            known_styles: Vec::new(),
            uses_widgets: false,
            diagnostic_summary: DiagnosticSummary::NothingDetected,
            known_components: Vec::new(),
            current_element: ElementInformation::new(),
            properties: Vec::new(),
            runtime_components: Vec::new(),
        };
        assert(ui@.properties =~= Seq::empty());
        assert(ui@.runtime_components =~= Seq::empty());
        assert(ui@.known_styles =~= Seq::empty());
        assert(ui@.known_components =~= Seq::empty());
        ui
    }
}

/// Makes the state of the user interface at its start: nothing is shown
/// yet, the known styles are `native` and those of the available styles
/// that the preview offers, in ascending order, and the current style is
/// the requested one where it is known, and `native` otherwise.
///
/// The preview needs a style to choose from besides `native`.
pub fn create_ui_with_styles(
    style: String,
    experimental: bool,
    available_styles: &Vec<String>,
    has_native_style: bool,
) -> (ui: PreviewUi)
    requires
        style_candidates(available_styles.deep_view(), has_native_style).len() > 1,
    ensures
        ui@ == (PreviewUiModel {
            current_style: chosen_style(
                style@,
                style_candidates(available_styles.deep_view(), has_native_style),
            ),
            experimental,
            known_styles: ui@.known_styles,
            ..PreviewUiModel::blank()
        }),
        is_sorted_list_of(
            ui@.known_styles,
            style_candidates(available_styles.deep_view(), has_native_style),
        ),
        ui@.known_styles.len() > 1,
{
    let styles = known_styles(available_styles, has_native_style);
    proof {
        lemma_sorted_list_has_the_candidates(
            styles.deep_view(),
            style_candidates(available_styles.deep_view(), has_native_style),
            style@,
        );
    }
    let mut ui = PreviewUi::new();
    ui.current_style = choose_style(style, &styles);
    ui.experimental = experimental;
    ui.known_styles = styles;
    ui
}

/// Makes the state of the user interface at its start, with the styles
/// that this build offers. There is no state where the build offers no
/// style besides `native`.
///
/// Whatever the build offers: nothing is shown yet, the known styles are
/// in ascending order, and the current style is the requested one or
/// `native`.
pub fn create_ui(style: String, experimental: bool) -> (r: Option<PreviewUi>)
    ensures
        match r {
            Some(ui) => {
                &&& ui@ == (PreviewUiModel {
                    current_style: ui@.current_style,
                    experimental,
                    known_styles: ui@.known_styles,
                    ..PreviewUiModel::blank()
                })
                &&& ui@.current_style == style@ || ui@.current_style == "native"@
                &&& ui@.current_style == chosen_style(style@, ui@.known_styles)
                &&& ui@.known_styles.len() > 1
                &&& forall|a: int, b: int|
                    0 <= a < b < ui@.known_styles.len() ==> !lex_lt(
                        #[trigger] ui@.known_styles[b],
                        #[trigger] ui@.known_styles[a],
                    )
            },
            None => true,
        },
{
    let available = builtin_styles();
    let has_native_style = has_native_style();
    let ghost candidates = style_candidates(available.deep_view(), has_native_style);
    let offered = known_styles(&available, has_native_style);
    proof {
        lemma_sorted_list_has_the_candidates(offered.deep_view(), candidates, style@);
    }
    if offered.len() > 1 {
        let ui = create_ui_with_styles(style, experimental, &available, has_native_style);
        proof {
            lemma_sorted_list_has_the_candidates(ui@.known_styles, candidates, style@);
        }
        Some(ui)
    } else {
        None
    }
}

/// Records whether the previewed component uses widgets of the standard
/// library.
pub fn ui_set_uses_widgets(ui: &mut PreviewUi, uses_widgets: bool)
    ensures
        final(ui)@ == (PreviewUiModel { uses_widgets, ..old(ui)@ }),
{
    ui.uses_widgets = uses_widgets;
}

/// Shows the components that the preview knows, by where they come from.
/// `current_component_index` is the place of the component that is
/// previewed among the known components.
pub fn ui_set_known_components(
    ui: &mut PreviewUi,
    known_components: &Vec<ComponentInformation>,
    current_component_index: usize,
)
    requires
        known_components.len() <= i32::MAX,
    ensures
        final(ui)@ == (PreviewUiModel {
            known_components: component_list(known_components@, current_component_index as int),
            ..old(ui)@
        }),
{
    ui.known_components = list_components(known_components, current_component_index);
}

/// The place in a document of a line and a column that count from 1, as a
/// place that counts from 0. A line or column of 0 stays 0, and a negative
/// one wraps around.
pub open spec fn document_position(line: i32, column: i32) -> (u32, u32) {
    (
        if line as u32 == 0 {
            0u32
        } else {
            (line as u32 - 1) as u32
        },
        if column as u32 == 0 {
            0u32
        } else {
            (column as u32 - 1) as u32
        },
    )
}

/// Works out the place in a document to show for a line and a column.
pub fn show_document_position(line: i32, column: i32) -> (position: (u32, u32))
    ensures
        position == document_position(line, column),
{
    let l: u32 = #[verifier::truncate] (line as u32);
    let c: u32 = #[verifier::truncate] (column as u32);
    (if l == 0 { 0 } else { l - 1 }, if c == 0 { 0 } else { c - 1 })
}

/// What a list of diagnostics comes to: errors where one of them is an
/// error, warnings where none is an error and one is a warning, and
/// nothing otherwise.
pub open spec fn summary_of(levels: Seq<DiagnosticLevel>) -> DiagnosticSummary {
    if levels.contains(DiagnosticLevel::Error) {
        DiagnosticSummary::Errors
    } else if levels.contains(DiagnosticLevel::Warning) {
        DiagnosticSummary::Warnings
    } else {
        DiagnosticSummary::NothingDetected
    }
}

/// Records what the diagnostics of a build come to.
pub fn set_diagnostics(ui: &mut PreviewUi, diagnostics: &Vec<DiagnosticLevel>)
    ensures
        final(ui)@ == (PreviewUiModel {
            diagnostic_summary: summary_of(diagnostics@),
            ..old(ui)@
        }),
{
    let mut summary = DiagnosticSummary::NothingDetected;
    let mut i: usize = 0;
    while i < diagnostics.len()
        invariant
            i <= diagnostics.len(),
            summary == summary_of(diagnostics@.take(i as int)),
        decreases diagnostics.len() - i,
    {
        let ghost seen = diagnostics@.take(i as int);
        let ghost now = diagnostics@.take(i + 1);
        proof {
            assert(now =~= seen.push(diagnostics@[i as int]));
            assert forall|level: DiagnosticLevel| now.contains(level) <==> (seen.contains(level)
                || level == diagnostics@[i as int]) by {
                if seen.contains(level) {
                    let x = choose|x: int| 0 <= x < seen.len() && seen[x] == level;
                    assert(now[x] == level);
                }
                if level == diagnostics@[i as int] {
                    assert(now[i as int] == level);
                }
            }
        }
        summary = match (summary, diagnostics[i]) {
            (_, DiagnosticLevel::Error) => DiagnosticSummary::Errors,
            (DiagnosticSummary::Errors, DiagnosticLevel::Warning) => DiagnosticSummary::Errors,
            (_, DiagnosticLevel::Warning) => DiagnosticSummary::Warnings,
            (acc, _) => acc,
        };
        i += 1;
    }
    assert(diagnostics@.take(diagnostics.len() as int) =~= diagnostics@);
    ui.diagnostic_summary = summary;
}

/// What the answer to a property query comes to for the user interface:
/// the element, the declarations and the table that it maps to, and
/// without an answer that maps, no element, no declarations and an empty
/// table.
pub open spec fn next_properties(
    document_cache: DocumentCache,
    properties: Option<QueryPropertyResponse>,
) -> (ElementInformationModel, Map<Seq<char>, PropertyDeclarationModel>, Seq<PropertyGroupModel>) {
    match mapped_properties(document_cache, properties) {
        Some(next) => next,
        None => (ElementInformationModel::blank(), Map::empty(), Seq::empty()),
    }
}

/// The property table that is shown after a newer one has come in. For
/// another element than the one shown, the newer table takes the place of
/// the shown one. For the same element, a shown table that has groups is
/// brought up to date group by group, and one that has none gives way to
/// the newer table.
pub open spec fn properties_after(
    current_element: ElementInformationModel,
    current: Seq<PropertyGroupModel>,
    next_element: ElementInformationModel,
    next: Seq<PropertyGroupModel>,
) -> Seq<PropertyGroupModel> {
    if !same_element(current_element, next_element) {
        next
    } else if current.len() > 0 {
        updated(current, next)
    } else {
        next
    }
}

/// Shows the properties of an element, from the answer to a property
/// query, and hands back where they are declared.
pub fn ui_set_properties(
    ui: &mut PreviewUi,
    document_cache: &DocumentCache,
    properties: &Option<QueryPropertyResponse>,
) -> (declarations: PropertyDeclarations)
    requires
        answer_fits(*properties),
    ensures
        ({
            let next = next_properties(*document_cache, *properties);
            &&& declarations@ == next.1
            &&& final(ui)@ == (PreviewUiModel {
                current_element: next.0,
                properties: properties_after(
                    old(ui)@.current_element,
                    old(ui)@.properties,
                    next.0,
                    next.2,
                ),
                ..old(ui)@
            })
        }),
{
    let (next_element, declarations, next_model) = match map_properties_to_ui(
        document_cache,
        properties,
    ) {
        Some(next) => next,
        None => {
            let empty: Vec<PropertyGroup> = Vec::new();
            assert(empty.deep_view() =~= Seq::empty());
            (ElementInformation::new(), PropertyDeclarations::new(), empty)
        },
    };
    if !is_equal_element(&ui.current_element, &next_element) {
        ui.properties = next_model;
    } else if ui.properties.len() > 0 {
        update_properties(&mut ui.properties, &next_model);
    } else {
        ui.properties = next_model;
    }
    ui.current_element = next_element;
    declarations
}

/// Shows the properties of a running program, from the answer to a query
/// for them. A shown list of the same shape is patched, property by
/// property; any other gives way to the newer list.
pub fn ui_set_runtime_properties(
    ui: &mut PreviewUi,
    runtime_properties: &Vec<
        (runtime_properties::RuntimeComponent, Vec<runtime_properties::RuntimeProperty>),
    >,
)
    ensures
        final(ui)@ == (PreviewUiModel {
            runtime_components: runtime_update(
                old(ui)@.runtime_components,
                runtime_components_of(runtime_properties@),
            ),
            ..old(ui)@
        }),
{
    let result = map_runtime_components(runtime_properties);
    match update_model(&mut ui.runtime_components, result) {
        Some(m) => {
            ui.runtime_components = m;
        },
        None => {},
    }
}

/// Why a request to set a runtime property was not made.
#[derive(Clone, Copy, Debug, PartialEq, Eq, Structural)]
pub enum SetRuntimePropertyError {
    /// The table of values has no row.
    NoValue,
}

/// A request to set a property of a running program to a table of values.
#[derive(Debug)]
pub struct SetRuntimeProperty {
    pub component: runtime_properties::RuntimeComponent,
    pub property_name: String,
    pub values: Vec<Vec<PropertyValue>>,
}

/// A request to set properties of a running program from JSON.
#[derive(Debug)]
pub struct SetRuntimeJsonProperties {
    pub component: runtime_properties::RuntimeComponent,
    /// The one property to set; all of them where there is none.
    pub property_name: Option<String>,
    pub json_string: String,
}

/// Whether a component is the one that a name stands for: the main
/// component for the empty name, and the global of that name for any
/// other.
pub open spec fn is_component_named(
    c: runtime_properties::RuntimeComponent,
    component: Seq<char>,
) -> bool {
    match c {
        runtime_properties::RuntimeComponent::Main => component.len() == 0,
        runtime_properties::RuntimeComponent::Global(name) => component.len() != 0 && name@
            == component,
    }
}

fn component_from_name(component: &String) -> (r: runtime_properties::RuntimeComponent)
    ensures
        is_component_named(r, component@),
{
    if component.as_str().unicode_len() == 0 {
        runtime_properties::RuntimeComponent::Main
    } else {
        runtime_properties::RuntimeComponent::Global(component.clone())
    }
}

/// Makes the request to set a property of a running program to a table of
/// values. A table without a row is refused; any other gives the request
/// for the named component, with the table as it is.
pub fn set_runtime_property(
    component: &String,
    property_name: &String,
    model: &Vec<Vec<PropertyValue>>,
) -> (r: Result<SetRuntimeProperty, SetRuntimePropertyError>)
    ensures
        model.len() == 0 ==> r == Err::<SetRuntimeProperty, _>(SetRuntimePropertyError::NoValue),
        model.len() != 0 ==> match r {
            Ok(request) => {
                &&& is_component_named(request.component, component@)
                &&& request.property_name@ == property_name@
                &&& request.values.deep_view() == model.deep_view()
            },
            Err(_) => false,
        },
{
    if model.len() == 0 {
        return Err(SetRuntimePropertyError::NoValue);
    }
    Ok(
        SetRuntimeProperty {
            component: component_from_name(component),
            property_name: property_name.clone(),
            values: crate::runtime::duplicate_runtime_property_value_table(model),
        },
    )
}

/// Makes the request to set properties of a running program from JSON: for
/// the named component, and for the named property, or for all properties
/// where the name is empty.
pub fn set_runtime_json_properties(
    component: &String,
    property_name: &String,
    json_string: &String,
) -> (request: SetRuntimeJsonProperties)
    ensures
        is_component_named(request.component, component@),
        match request.property_name {
            Some(name) => property_name@.len() != 0 && name@ == property_name@,
            None => property_name@.len() == 0,
        },
        request.json_string@ == json_string@,
{
    let name = if property_name.as_str().unicode_len() == 0 {
        None
    } else {
        Some(property_name.clone())
    };
    SetRuntimeJsonProperties {
        component: component_from_name(component),
        property_name: name,
        json_string: json_string.clone(),
    }
}

} // verus!
