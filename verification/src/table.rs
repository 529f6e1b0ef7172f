//! The property table of the selected element: how the answer to a
//! property query becomes the table, and how a shown table is brought up to
//! date.

use crate::declarations::{declarations_of, declare, to_ui_range, ui_range, PropertyDeclarations};
use crate::differ::{merged, update_grouped_properties};
use crate::grouping::{
    group_properties, groups_for, is_group_key_list, is_grouping, lemma_group_keys_unique,
    GroupKeyModel,
};
use crate::model::{
    ElementInformation, ElementInformationModel, PropertyDeclarationModel, PropertyGroup,
    PropertyGroupModel,
};
use crate::properties::{DocumentCache, PropertyInformation, QueryPropertyResponse};
use vstd::prelude::*;

verus! {

/// What `Url::parse` makes of a text, written out again: the URL in its
/// normal form, or nothing where the text is no URL.
pub uninterp spec fn parsed_uri(uri: Seq<char>) -> Option<Seq<char>>;

/// `Url::parse` of the `url` crate, as `lsp_types` hands it on, and the
/// `Display` of the URL it gives. A text that does not parse gives
/// nothing. The result depends on the text alone, and has the name
/// `parsed_uri`.
#[verifier::external_body]
pub(crate) fn parse_uri(uri: &str) -> (r: Option<String>)
    ensures
        match r {
            Some(s) => parsed_uri(uri@) == Some(s@),
            None => parsed_uri(uri@) is None,
        },
{
    match lsp_types::Url::parse(uri) {
        Ok(url) => Some(url.to_string()),
        Err(_) => None,
    }
}

/// The property table of a list of properties.
pub open spec fn property_table(properties: Seq<PropertyInformation>) -> Seq<PropertyGroupModel> {
    choose|groups: Seq<PropertyGroupModel>| is_grouping(groups, properties)
}

/// There is one property table of a list of properties, and no other.
pub proof fn lemma_property_table_is_unique(
    groups: Seq<PropertyGroupModel>,
    properties: Seq<PropertyInformation>,
)
    requires
        is_grouping(groups, properties),
    ensures
        groups == property_table(properties),
        is_grouping(property_table(properties), properties),
{
    let other = property_table(properties);
    let a = choose|keys: Seq<GroupKeyModel>| #[trigger]
        is_group_key_list(keys, properties) && groups == groups_for(keys, properties);
    let b = choose|keys: Seq<GroupKeyModel>| #[trigger]
        is_group_key_list(keys, properties) && other == groups_for(keys, properties);
    lemma_group_keys_unique(a, b, properties);
}

/// Whether every property's priority fits the table's signed 32-bit
/// display priority.
pub open spec fn priorities_fit(properties: Seq<PropertyInformation>) -> bool {
    forall|i: int| 0 <= i < properties.len() ==> (#[trigger] properties[i]).priority <= i32::MAX
}

/// What the answer to a property query becomes, given the URI of the
/// document in its normal form: the description of the element, the
/// declarations of its properties, and its property table. Nothing where
/// the answer names no element, or where the element's range does not fit.
pub open spec fn mapped(
    document_cache: DocumentCache,
    response: QueryPropertyResponse,
    source_uri: Seq<char>,
) -> Option<
    (ElementInformationModel, Map<Seq<char>, PropertyDeclarationModel>, Seq<PropertyGroupModel>),
> {
    match response.element {
        Some(element) => match ui_range(element.range) {
            Some(range) => Some(
                (
                    ElementInformationModel {
                        id: element.id@,
                        ty_name: element.ty_name@,
                        source_uri,
                        source_version: response.source_version,
                        range,
                    },
                    declarations_of(
                        document_cache,
                        response.properties@,
                        response.properties@.len() as int,
                    ),
                    property_table(response.properties@),
                ),
            ),
            None => None,
        },
        None => None,
    }
}

/// What a mapped answer holds.
pub open spec fn mapping_model(
    r: Option<(ElementInformation, PropertyDeclarations, Vec<PropertyGroup>)>,
) -> Option<
    (ElementInformationModel, Map<Seq<char>, PropertyDeclarationModel>, Seq<PropertyGroupModel>),
> {
    match r {
        Some((element, declarations, groups)) => Some(
            (element@, declarations@, groups.deep_view()),
        ),
        None => None,
    }
}

/// Maps the answer to a property query, given the URI of the document in
/// its normal form.
pub fn map_properties_with_uri(
    document_cache: &DocumentCache,
    response: &QueryPropertyResponse,
    source_uri: String,
) -> (r: Option<(ElementInformation, PropertyDeclarations, Vec<PropertyGroup>)>)
    requires
        priorities_fit(response.properties@),
    ensures
        mapping_model(r) == mapped(*document_cache, *response, source_uri@),
{
    let element = match &response.element {
        Some(element) => element,
        None => { return None; },
    };
    let mut declarations = PropertyDeclarations::new();
    let mut i: usize = 0;
    while i < response.properties.len()
        invariant
            i <= response.properties.len(),
            declarations@ == declarations_of(*document_cache, response.properties@, i as int),
        decreases response.properties.len() - i,
    {
        let pi = &response.properties[i];
        declarations.insert(pi.name.clone(), declare(document_cache, pi));
        i += 1;
    }
    let groups = group_properties(&response.properties);
    proof {
        lemma_property_table_is_unique(groups.deep_view(), response.properties@);
    }
    let range = match to_ui_range(element.range) {
        Some(range) => range,
        None => { return None; },
    };
    Some(
        (
            ElementInformation {
                id: element.id.clone(),
                ty_name: element.ty_name.clone(),
                source_uri,
                source_version: response.source_version,
                range,
            },
            declarations,
            groups,
        ),
    )
}

/// What the answer to a property query becomes: nothing where there is no
/// answer or where the document's URI is no URL, and otherwise what the
/// answer becomes with the URI in its normal form.
pub open spec fn mapped_properties(
    document_cache: DocumentCache,
    properties: Option<QueryPropertyResponse>,
) -> Option<
    (ElementInformationModel, Map<Seq<char>, PropertyDeclarationModel>, Seq<PropertyGroupModel>),
> {
    match properties {
        Some(response) => match parsed_uri(response.source_uri@) {
            Some(source_uri) => mapped(document_cache, response, source_uri),
            None => None,
        },
        None => None,
    }
}

/// Whether the priorities of an answer's properties fit the table.
pub open spec fn answer_fits(properties: Option<QueryPropertyResponse>) -> bool {
    properties matches Some(response) ==> priorities_fit(response.properties@)
}

/// Maps the answer to a property query to the description of the element,
/// the declarations of its properties, and its property table.
pub fn map_properties_to_ui(
    document_cache: &DocumentCache,
    properties: &Option<QueryPropertyResponse>,
) -> (r: Option<(ElementInformation, PropertyDeclarations, Vec<PropertyGroup>)>)
    requires
        answer_fits(*properties),
    ensures
        mapping_model(r) == mapped_properties(*document_cache, *properties),
{
    let response = match properties {
        Some(response) => response,
        None => { return None; },
    };
    if response.element.is_none() {
        return None;
    }
    let source_uri = match parse_uri(response.source_uri.as_str()) {
        Some(uri) => uri,
        None => { return None; },
    };
    map_properties_with_uri(document_cache, response, source_uri)
}

/// A shown table after it was brought up to date with a newer one: each of
/// its groups that the newer table has a group for, at the same place, has
/// the rows that the differ leaves, and every other group is as it was.
pub open spec fn updated(
    current: Seq<PropertyGroupModel>,
    next: Seq<PropertyGroupModel>,
) -> Seq<PropertyGroupModel> {
    Seq::new(
        current.len(),
        |k: int|
            if k < next.len() {
                PropertyGroupModel {
                    group_name: current[k].group_name,
                    properties: merged(current[k].properties, next[k].properties, 0, 0),
                }
            } else {
                current[k]
            },
    )
}

/// Brings a shown table up to date with a newer one, group by group. The
/// two tables are taken to have the same groups in the same order; rows
/// that did not change are left untouched.
pub fn update_properties(current_model: &mut Vec<PropertyGroup>, next_model: &Vec<PropertyGroup>)
    ensures
        final(current_model).deep_view() == updated(
            old(current_model).deep_view(),
            next_model.deep_view(),
        ),
{
    let ghost before = current_model.deep_view();
    let mut k: usize = 0;
    while k < current_model.len() && k < next_model.len()
        invariant
            k <= current_model.len(),
            current_model.len() == before.len(),
            forall|x: int|
                0 <= x < k ==> (#[trigger] current_model@[x])@ == updated(
                    before,
                    next_model.deep_view(),
                )[x],
            forall|x: int| k <= x < before.len() ==> (#[trigger] current_model@[x])@ == before[x],
        decreases current_model.len() - k,
    {
        let mut group = current_model.remove(k);
        update_grouped_properties(&mut group.properties, &next_model[k].properties);
        current_model.insert(k, group);
        k += 1;
    }
    assert(current_model.deep_view() =~= updated(before, next_model.deep_view()));
}

} // verus!
