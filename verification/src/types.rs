//! The types a property can have, as far as projection tells them apart.

use vstd::prelude::*;

verus! {

/// An enumeration: its name, its members in declared order, and the index of
/// the member that is its default.
#[derive(Debug)]
pub struct Enumeration {
    pub name: String,
    pub values: Vec<String>,
    pub default_value: usize,
}

impl Enumeration {
    /// What must hold of an enumeration: it has a member, and its default is
    /// one of its members. An editor's index is a 32-bit integer, so the
    /// members are no more than that can count.
    pub open spec fn well_formed(self) -> bool {
        &&& self.values@.len() > 0
        &&& self.default_value < self.values@.len()
        &&& self.values@.len() <= i32::MAX
    }
}

/// One field of a struct type: its name, normalised as the language
/// normalises identifiers, and its type.
#[derive(Debug)]
pub struct Field {
    pub name: String,
    pub ty: Type,
}

/// The type of a property.
#[derive(Debug)]
pub enum Type {
    Float32,
    Int32,
    Duration,
    PhysicalLength,
    LogicalLength,
    Rem,
    Angle,
    Percent,
    Color,
    Brush,
    Bool,
    String,
    Enumeration(Enumeration),
    /// An array of elements of one type.
    Array(Box<Type>),
    /// A struct: its fields in declared order.
    Struct(Vec<Field>),
    /// Any other type: an image, a model, a path, an easing curve, a
    /// callback. Its values are shown as text.
    Other,
}

impl Type {
    /// Whether the type is neither an array nor a struct.
    pub open spec fn is_scalar(self) -> bool {
        !(self is Array) && !(self is Struct)
    }
}

} // verus!
