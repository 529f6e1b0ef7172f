//! The property table as the inspector shows it: groups of rows, one row
//! for each property, for the element that is selected.

use crate::value::{PropertyValue, PropertyValueModel};
use vstd::prelude::*;

verus! {

/// A range of source text, by the offsets of its start and its end.
#[derive(Clone, Copy, Debug, PartialEq, Eq, Structural)]
pub struct Range {
    pub start: i32,
    pub end: i32,
}

/// Where a property is given its value, and the source text of the value.
#[derive(Debug, PartialEq, Eq)]
pub struct PropertyDefinition {
    pub definition_range: Range,
    pub selection_range: Range,
    pub expression_range: Range,
    pub expression_value: String,
}

/// What a property definition holds.
pub struct PropertyDefinitionModel {
    pub definition_range: Range,
    pub selection_range: Range,
    pub expression_range: Range,
    pub expression_value: Seq<char>,
}

impl DeepView for PropertyDefinition {
    type V = PropertyDefinitionModel;

    open spec fn deep_view(&self) -> PropertyDefinitionModel {
        PropertyDefinitionModel {
            definition_range: self.definition_range,
            selection_range: self.selection_range,
            expression_range: self.expression_range,
            expression_value: self.expression_value@,
        }
    }
}

impl View for PropertyDefinition {
    type V = PropertyDefinitionModel;

    open spec fn view(&self) -> PropertyDefinitionModel {
        self.deep_view()
    }
}

impl Clone for PropertyDefinition {
    fn clone(&self) -> (r: PropertyDefinition)
        ensures
            r@ == self@,
    {
        PropertyDefinition {
            definition_range: self.definition_range,
            selection_range: self.selection_range,
            expression_range: self.expression_range,
            expression_value: self.expression_value.clone(),
        }
    }
}

/// Where a property is declared, with where it is given its value.
#[derive(Debug, PartialEq, Eq)]
pub struct PropertyDeclaration {
    pub defined_at: PropertyDefinition,
    pub source_path: String,
    pub source_version: i32,
    pub range: Range,
}

/// What a property declaration holds.
pub struct PropertyDeclarationModel {
    pub defined_at: PropertyDefinitionModel,
    pub source_path: Seq<char>,
    pub source_version: i32,
    pub range: Range,
}

impl DeepView for PropertyDeclaration {
    type V = PropertyDeclarationModel;

    open spec fn deep_view(&self) -> PropertyDeclarationModel {
        PropertyDeclarationModel {
            defined_at: self.defined_at@,
            source_path: self.source_path@,
            source_version: self.source_version,
            range: self.range,
        }
    }
}

impl View for PropertyDeclaration {
    type V = PropertyDeclarationModel;

    open spec fn view(&self) -> PropertyDeclarationModel {
        self.deep_view()
    }
}

/// One row of the property table: a property's name, the name of its type,
/// its value, and the priority by which it is placed in its group.
#[derive(Debug, PartialEq, Eq)]
pub struct PropertyInformation {
    pub name: String,
    pub ty_name: String,
    pub value: PropertyValue,
    pub display_priority: i32,
}

/// What a row of the property table holds.
pub struct PropertyInformationModel {
    pub name: Seq<char>,
    pub ty_name: Seq<char>,
    pub value: PropertyValueModel,
    pub display_priority: i32,
}

impl DeepView for PropertyInformation {
    type V = PropertyInformationModel;

    open spec fn deep_view(&self) -> PropertyInformationModel {
        PropertyInformationModel {
            name: self.name@,
            ty_name: self.ty_name@,
            value: self.value@,
            display_priority: self.display_priority,
        }
    }
}

impl View for PropertyInformation {
    type V = PropertyInformationModel;

    open spec fn view(&self) -> PropertyInformationModel {
        self.deep_view()
    }
}

impl Clone for PropertyInformation {
    fn clone(&self) -> (r: PropertyInformation)
        ensures
            r@ == self@,
    {
        PropertyInformation {
            name: self.name.clone(),
            ty_name: self.ty_name.clone(),
            value: self.value.clone(),
            display_priority: self.display_priority,
        }
    }
}

/// A group of rows under one name.
#[derive(Debug, PartialEq, Eq)]
pub struct PropertyGroup {
    pub group_name: String,
    pub properties: Vec<PropertyInformation>,
}

/// What a group of rows holds.
pub struct PropertyGroupModel {
    pub group_name: Seq<char>,
    pub properties: Seq<PropertyInformationModel>,
}

impl DeepView for PropertyGroup {
    type V = PropertyGroupModel;

    open spec fn deep_view(&self) -> PropertyGroupModel {
        PropertyGroupModel {
            group_name: self.group_name@,
            properties: self.properties.deep_view(),
        }
    }
}

impl View for PropertyGroup {
    type V = PropertyGroupModel;

    open spec fn view(&self) -> PropertyGroupModel {
        self.deep_view()
    }
}

/// The element whose properties the table shows.
#[derive(Debug, PartialEq, Eq)]
pub struct ElementInformation {
    pub id: String,
    pub ty_name: String,
    pub source_uri: String,
    pub source_version: i32,
    pub range: Range,
}

/// What the description of an element holds.
pub struct ElementInformationModel {
    pub id: Seq<char>,
    pub ty_name: Seq<char>,
    pub source_uri: Seq<char>,
    pub source_version: i32,
    pub range: Range,
}

impl ElementInformationModel {
    /// The description of no element: empty names, version 0, and an empty
    /// range at the start.
    pub open spec fn blank() -> ElementInformationModel {
        ElementInformationModel {
            id: Seq::empty(),
            ty_name: Seq::empty(),
            source_uri: Seq::empty(),
            source_version: 0,
            range: Range { start: 0, end: 0 },
        }
    }
}

impl DeepView for ElementInformation {
    type V = ElementInformationModel;

    open spec fn deep_view(&self) -> ElementInformationModel {
        ElementInformationModel {
            id: self.id@,
            ty_name: self.ty_name@,
            source_uri: self.source_uri@,
            source_version: self.source_version,
            range: self.range,
        }
    }
}

impl View for ElementInformation {
    type V = ElementInformationModel;

    open spec fn view(&self) -> ElementInformationModel {
        self.deep_view()
    }
}

impl ElementInformation {
    /// The description of no element.
    pub fn new() -> (e: ElementInformation)
        ensures
            e@ == ElementInformationModel::blank(),
    {
        ElementInformation {
            id: String::new(),
            ty_name: String::new(),
            source_uri: String::new(),
            source_version: 0,
            range: Range { start: 0, end: 0 },
        }
    }
}

/// Whether two values are the same to the table: they come from the same
/// source text.
pub open spec fn same_value(c: PropertyValueModel, n: PropertyValueModel) -> bool {
    c.code == n.code
}

/// Whether two rows are the same to the table: they have the same name and
/// the same type name, and their values come from the same source text.
pub open spec fn same_property(c: PropertyInformationModel, n: PropertyInformationModel) -> bool {
    c.name == n.name && c.ty_name == n.ty_name && same_value(c.value, n.value)
}

/// Whether two descriptions are of the same element: they have the same
/// id and the same type name, and lie in the same document at the same
/// offset.
pub open spec fn same_element(c: ElementInformationModel, n: ElementInformationModel) -> bool {
    c.id == n.id && c.ty_name == n.ty_name && c.source_uri == n.source_uri && c.range.start
        == n.range.start
}

/// Tells whether two values come from the same source text.
pub fn is_equal_value(c: &PropertyValue, n: &PropertyValue) -> (r: bool)
    ensures
        r == same_value(c@, n@),
{
    c.code == n.code
}

/// Tells whether two rows are the same to the table.
pub fn is_equal_property(c: &PropertyInformation, n: &PropertyInformation) -> (r: bool)
    ensures
        r == same_property(c@, n@),
{
    c.name == n.name && c.ty_name == n.ty_name && is_equal_value(&c.value, &n.value)
}

/// Tells whether two descriptions are of the same element.
pub fn is_equal_element(c: &ElementInformation, n: &ElementInformation) -> (r: bool)
    ensures
        r == same_element(c@, n@),
{
    c.id == n.id && c.ty_name == n.ty_name && c.source_uri == n.source_uri && c.range.start
        == n.range.start
}

} // verus!
