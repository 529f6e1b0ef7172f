//! The answer to a query for the properties of one element: what the
//! document layer knows of each property.

use crate::expression::DefaultValue;
use crate::syntax_nodes::Expression;
use crate::types::Type;
use vstd::prelude::*;

verus! {

/// A range of source text, by the offsets of its start and its end.
#[derive(Clone, Copy, Debug, PartialEq, Eq, Structural)]
pub struct TextRange {
    pub start: u32,
    pub end: u32,
}

/// What a property is bound to: the source text, where it stands, and the
/// parsed expression where the binding is one expression and no code block.
#[derive(Debug)]
pub struct CodeBlockOrExpression {
    pub text: String,
    pub text_range: TextRange,
    pub expression: Option<Expression>,
}

/// Where a property is declared.
#[derive(Debug)]
pub struct DeclarationInformation {
    pub path: String,
    pub start_position: u32,
}

/// Where a property is given its value.
#[derive(Debug)]
pub struct DefinitionInformation {
    pub property_definition_range: TextRange,
    pub selection_range: TextRange,
    pub code_block_or_expression: CodeBlockOrExpression,
}

/// One property of the element.
#[derive(Debug)]
pub struct PropertyInformation {
    pub name: String,
    pub priority: u32,
    pub ty: Type,
    /// The name of the type, as the language writes it.
    pub ty_name: String,
    pub declared_at: Option<DeclarationInformation>,
    pub defined_at: Option<DefinitionInformation>,
    pub default_value: Option<DefaultValue>,
    pub group: String,
    pub group_priority: u32,
}

/// The element the properties belong to.
#[derive(Debug)]
pub struct ElementInformation {
    pub id: String,
    pub ty_name: String,
    pub range: TextRange,
}

/// The answer to a query for the properties of one element.
#[derive(Debug)]
pub struct QueryPropertyResponse {
    pub properties: Vec<PropertyInformation>,
    pub element: Option<ElementInformation>,
    pub source_uri: String,
    pub source_version: i32,
}

/// The document versions that the document layer knows, by path: where a
/// path stands more than once, its first entry counts.
#[derive(Debug)]
pub struct DocumentCache {
    pub versions: Vec<(String, i32)>,
}

/// The version of the first of the entries from `from` on that has the
/// given path.
pub open spec fn find_version(versions: Seq<(String, i32)>, path: Seq<char>, from: int) -> Option<
    i32,
>
    decreases versions.len() - from,
{
    if from < 0 || from >= versions.len() {
        None
    } else if versions[from].0@ == path {
        Some(versions[from].1)
    } else {
        find_version(versions, path, from + 1)
    }
}

impl DocumentCache {
    /// The version of the document at a path, where the cache knows it.
    pub open spec fn version_of(self, path: Seq<char>) -> Option<i32> {
        find_version(self.versions@, path, 0)
    }

    /// Looks up the version of the document at a path.
    pub fn document_version_by_path(&self, path: &String) -> (version: Option<i32>)
        ensures
            version == self.version_of(path@),
    {
        let mut i: usize = 0;
        while i < self.versions.len()
            invariant
                i <= self.versions.len(),
                find_version(self.versions@, path@, 0) == find_version(
                    self.versions@,
                    path@,
                    i as int,
                ),
            decreases self.versions.len() - i,
        {
            if self.versions[i].0 == *path {
                return Some(self.versions[i].1);
            }
            i += 1;
        }
        None
    }
}

} // verus!
