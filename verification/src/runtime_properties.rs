//! The answer to a query for the properties of a running program.

use crate::live::RuntimeValue;
use crate::types::Type;
use vstd::prelude::*;

verus! {

/// An addressable part of a running program: its main component, or one of
/// its globals, by name.
#[derive(Debug)]
pub enum RuntimeComponent {
    Main,
    Global(String),
}

/// A property, a callback or a function of a component, with its value at
/// the time of the query.
#[derive(Debug)]
pub struct RuntimeProperty {
    pub name: String,
    pub ty: Type,
    pub value: Option<RuntimeValue>,
    /// Whether this is a property, and no callback or function.
    pub is_property: bool,
    /// Whether the value can be read from outside.
    pub has_getter: bool,
    /// Whether the value can be set from outside.
    pub has_setter: bool,
}

} // verus!
