//! Where the properties of the selected element are declared and defined.

use crate::model::{
    PropertyDeclaration, PropertyDeclarationModel, PropertyDefinition, PropertyDefinitionModel,
    Range,
};
use crate::properties::{
    DeclarationInformation, DefinitionInformation, DocumentCache, PropertyInformation, TextRange,
};
use vstd::prelude::*;

verus! {

/// A range of source text as the table holds it, where both of its offsets
/// fit a signed 32-bit integer.
pub open spec fn ui_range(r: TextRange) -> Option<Range> {
    if r.start <= i32::MAX && r.end <= i32::MAX {
        Some(Range { start: r.start as i32, end: r.end as i32 })
    } else {
        None
    }
}

/// Converts a range of source text to the table's own.
pub fn to_ui_range(r: TextRange) -> (range: Option<Range>)
    ensures
        range == ui_range(r),
{
    if r.start <= i32::MAX as u32 && r.end <= i32::MAX as u32 {
        Some(Range { start: r.start as i32, end: r.end as i32 })
    } else {
        None
    }
}

/// The definition that stands for a property without one: empty ranges at
/// the start, and no source text.
pub open spec fn no_definition() -> PropertyDefinitionModel {
    PropertyDefinitionModel {
        definition_range: Range { start: 0, end: 0 },
        selection_range: Range { start: 0, end: 0 },
        expression_range: Range { start: 0, end: 0 },
        expression_value: Seq::empty(),
    }
}

/// Where a property is defined, as the table holds it: absent where the
/// property has no definition, or where one of the three ranges does not
/// fit.
pub open spec fn definition_of(defined_at: Option<DefinitionInformation>) -> Option<
    PropertyDefinitionModel,
> {
    match defined_at {
        Some(da) => match (
            ui_range(da.property_definition_range),
            ui_range(da.selection_range),
            ui_range(da.code_block_or_expression.text_range),
        ) {
            (Some(definition_range), Some(selection_range), Some(expression_range)) => Some(
                PropertyDefinitionModel {
                    definition_range,
                    selection_range,
                    expression_range,
                    expression_value: da.code_block_or_expression.text@,
                },
            ),
            _ => None,
        },
        None => None,
    }
}

/// Converts where a property is defined.
pub fn map_property_definition(defined_at: &Option<DefinitionInformation>) -> (r: Option<
    PropertyDefinition,
>)
    ensures
        r.deep_view() == definition_of(*defined_at),
{
    let da = match defined_at {
        Some(da) => da,
        None => { return None; },
    };
    let definition_range = match to_ui_range(da.property_definition_range) {
        Some(r) => r,
        None => { return None; },
    };
    let selection_range = match to_ui_range(da.selection_range) {
        Some(r) => r,
        None => { return None; },
    };
    let expression_range = match to_ui_range(da.code_block_or_expression.text_range) {
        Some(r) => r,
        None => { return None; },
    };
    Some(
        PropertyDefinition {
            definition_range,
            selection_range,
            expression_range,
            expression_value: da.code_block_or_expression.text.clone(),
        },
    )
}

/// Where a property is declared, as the table holds it: the path of the
/// document, the version that the document layer knows of it, or -1, and
/// an empty range at the place of the declaration. Absent where the
/// property has no declaration, or where that place does not fit.
pub open spec fn declaration_of(
    document_cache: DocumentCache,
    declared_at: Option<DeclarationInformation>,
    defined_at: PropertyDefinitionModel,
) -> Option<PropertyDeclarationModel> {
    match declared_at {
        Some(da) => match ui_range(TextRange { start: da.start_position, end: da.start_position }) {
            Some(range) => Some(
                PropertyDeclarationModel {
                    defined_at,
                    source_path: da.path@,
                    source_version: match document_cache.version_of(da.path@) {
                        Some(version) => version,
                        None => -1i32,
                    },
                    range,
                },
            ),
            None => None,
        },
        None => None,
    }
}

/// Converts where a property is declared.
pub fn map_property_declaration(
    document_cache: &DocumentCache,
    declared_at: &Option<DeclarationInformation>,
    defined_at: PropertyDefinition,
) -> (r: Option<PropertyDeclaration>)
    ensures
        r.deep_view() == declaration_of(*document_cache, *declared_at, defined_at@),
{
    let da = match declared_at {
        Some(da) => da,
        None => { return None; },
    };
    let source_version = match document_cache.document_version_by_path(&da.path) {
        Some(version) => version,
        None => -1,
    };
    let pos = TextRange { start: da.start_position, end: da.start_position };
    let range = match to_ui_range(pos) {
        Some(r) => r,
        None => { return None; },
    };
    Some(PropertyDeclaration { defined_at, source_path: da.path.clone(), source_version, range })
}

/// The declaration that the table holds for a property: where it is
/// declared and defined, with empty ranges and texts for what is not known.
pub open spec fn declared(document_cache: DocumentCache, pi: PropertyInformation) -> PropertyDeclarationModel {
    let defined_at = match definition_of(pi.defined_at) {
        Some(d) => d,
        None => no_definition(),
    };
    match declaration_of(document_cache, pi.declared_at, defined_at) {
        Some(d) => d,
        None => PropertyDeclarationModel {
            defined_at,
            source_path: Seq::empty(),
            source_version: -1i32,
            range: Range { start: 0, end: 0 },
        },
    }
}

/// Works out the declaration that the table holds for a property.
pub fn declare(document_cache: &DocumentCache, pi: &PropertyInformation) -> (r: PropertyDeclaration)
    ensures
        r@ == declared(*document_cache, *pi),
{
    let defined_at = match map_property_definition(&pi.defined_at) {
        Some(d) => d,
        None => PropertyDefinition {
            definition_range: Range { start: 0, end: 0 },
            selection_range: Range { start: 0, end: 0 },
            expression_range: Range { start: 0, end: 0 },
            expression_value: String::new(),
        },
    };
    let fallback = defined_at.clone();
    match map_property_declaration(document_cache, &pi.declared_at, defined_at) {
        Some(d) => d,
        None => PropertyDeclaration {
            defined_at: fallback,
            source_path: String::new(),
            source_version: -1,
            range: Range { start: 0, end: 0 },
        },
    }
}

/// The declarations of the properties of an element, by the properties'
/// names. Where a name is entered twice, the later entry counts.
#[derive(Debug)]
pub struct PropertyDeclarations {
    pub entries: Vec<(String, PropertyDeclaration)>,
}

/// The map that the first `count` entries make.
pub open spec fn entries_map(entries: Seq<(String, PropertyDeclaration)>, count: int) -> Map<
    Seq<char>,
    PropertyDeclarationModel,
>
    decreases count,
{
    if count <= 0 {
        Map::empty()
    } else {
        entries_map(entries, count - 1).insert(entries[count - 1].0@, entries[count - 1].1@)
    }
}

impl View for PropertyDeclarations {
    type V = Map<Seq<char>, PropertyDeclarationModel>;

    open spec fn view(&self) -> Map<Seq<char>, PropertyDeclarationModel> {
        entries_map(self.entries@, self.entries@.len() as int)
    }
}

impl PropertyDeclarations {
    /// No declarations.
    pub fn new() -> (r: PropertyDeclarations)
        ensures
            r@ == Map::<Seq<char>, PropertyDeclarationModel>::empty(),
    {
        PropertyDeclarations { entries: Vec::new() }
    }

    /// Enters the declaration of a property under its name.
    pub fn insert(&mut self, name: String, declaration: PropertyDeclaration)
        ensures
            final(self)@ == old(self)@.insert(name@, declaration@),
    {
        let ghost before = self.entries@;
        self.entries.push((name, declaration));
        proof {
            lemma_entries_map_prefix(before, self.entries@, before.len() as int);
        }
    }

    /// The declaration entered under a name, where there is one.
    pub fn get(&self, name: &String) -> (r: Option<&PropertyDeclaration>)
        ensures
            r matches Some(d) ==> self@.contains_key(name@) && self@[name@] == d@,
            r is None ==> !self@.contains_key(name@),
    {
        let mut i: usize = self.entries.len();
        while i > 0
            invariant
                i <= self.entries.len(),
                forall|j: int| i <= j < self.entries.len() ==> self.entries@[j].0@ != name@,
            decreases i,
        {
            i -= 1;
            if self.entries[i].0 == *name {
                proof {
                    lemma_entries_map_last(self.entries@, self.entries@.len() as int, i as int);
                }
                return Some(&self.entries[i].1);
            }
        }
        proof {
            lemma_entries_map_absent(self.entries@, self.entries@.len() as int, name@);
        }
        None
    }
}

/// The map of the first entries is the same for two lists that agree in
/// them.
pub proof fn lemma_entries_map_prefix(
    a: Seq<(String, PropertyDeclaration)>,
    b: Seq<(String, PropertyDeclaration)>,
    count: int,
)
    requires
        count <= a.len(),
        count <= b.len(),
        forall|k: int| 0 <= k < count ==> a[k] == b[k],
    ensures
        entries_map(a, count) == entries_map(b, count),
    decreases count,
{
    if count > 0 {
        lemma_entries_map_prefix(a, b, count - 1);
    }
}

/// The entry at `at` counts for its name where no later entry has the same
/// name.
pub proof fn lemma_entries_map_last(entries: Seq<(String, PropertyDeclaration)>, count: int, at: int)
    requires
        0 <= at < count <= entries.len(),
        forall|j: int| at < j < count ==> entries[j].0@ != entries[at].0@,
    ensures
        entries_map(entries, count).contains_key(entries[at].0@),
        entries_map(entries, count)[entries[at].0@] == entries[at].1@,
    decreases count,
{
    if at < count - 1 {
        lemma_entries_map_last(entries, count - 1, at);
    }
}

/// A name that no entry has is not in the map.
pub proof fn lemma_entries_map_absent(
    entries: Seq<(String, PropertyDeclaration)>,
    count: int,
    name: Seq<char>,
)
    requires
        count <= entries.len(),
        forall|j: int| 0 <= j < count ==> entries[j].0@ != name,
    ensures
        !entries_map(entries, count).contains_key(name),
    decreases count,
{
    if count > 0 {
        lemma_entries_map_absent(entries, count - 1, name);
    }
}

/// The declarations of the first `count` properties, by their names.
pub open spec fn declarations_of(
    document_cache: DocumentCache,
    properties: Seq<PropertyInformation>,
    count: int,
) -> Map<Seq<char>, PropertyDeclarationModel>
    decreases count,
{
    if count <= 0 {
        Map::empty()
    } else {
        declarations_of(document_cache, properties, count - 1).insert(
            properties[count - 1].name@,
            declared(document_cache, properties[count - 1]),
        )
    }
}

} // verus!
