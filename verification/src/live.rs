//! Values of a running program, as the one who runs it hands them over.

use crate::color::Color;
use crate::number::Number;
use vstd::prelude::*;

verus! {

/// One field of a struct value: its name and what it holds.
#[derive(Debug)]
pub struct RuntimeField {
    pub name: String,
    pub value: RuntimeValue,
}

/// What a value of a running program holds.
#[derive(Debug)]
pub enum RuntimeData {
    /// Nothing.
    Void,
    /// A number, with its shortest decimal rendering in single precision.
    Number { value: Number, text: String },
    /// A text.
    Text(String),
    /// A boolean.
    Bool(bool),
    /// A brush of one solid colour.
    Color(Color),
    /// The elements of a model, in order.
    Array(Vec<RuntimeValue>),
    /// The fields of a struct.
    Struct(Vec<RuntimeField>),
    /// Anything else: an image, a path, a gradient.
    Other,
}

/// A value of a running program: what it holds, and its rendering as
/// indented JSON, which is the source text of every value derived from it.
#[derive(Debug)]
pub struct RuntimeValue {
    pub code: String,
    pub data: RuntimeData,
}

/// The value behind an optional reference.
pub open spec fn referent(value: Option<&RuntimeValue>) -> Option<RuntimeValue> {
    match value {
        Some(v) => Some(*v),
        None => None,
    }
}

/// The JSON rendering of a value; empty for an absent one.
pub open spec fn code_of(value: Option<RuntimeValue>) -> Seq<char> {
    match value {
        Some(v) => v.code@,
        None => Seq::empty(),
    }
}

/// The number a value holds; zero for an absent value and for one that
/// holds no number.
pub open spec fn number_of(value: Option<RuntimeValue>) -> Number {
    match value {
        Some(RuntimeValue { data: RuntimeData::Number { value, .. }, .. }) => value,
        _ => Number::spec_zero(),
    }
}

/// The decimal rendering of the number a value holds; `0` for an absent
/// value and for one that holds no number.
pub open spec fn number_text_of(value: Option<RuntimeValue>) -> Seq<char> {
    match value {
        Some(RuntimeValue { data: RuntimeData::Number { text, .. }, .. }) => text@,
        _ => seq!['0'],
    }
}

/// The boolean a value holds; `false` for an absent value and for one that
/// holds no boolean.
pub open spec fn bool_of(value: Option<RuntimeValue>) -> bool {
    match value {
        Some(RuntimeValue { data: RuntimeData::Bool(b), .. }) => b,
        _ => false,
    }
}

/// The text a value holds; empty for an absent value and for one that holds
/// no text.
pub open spec fn text_of(value: Option<RuntimeValue>) -> Seq<char> {
    match value {
        Some(RuntimeValue { data: RuntimeData::Text(s), .. }) => s@,
        _ => Seq::empty(),
    }
}

/// The colour a value holds; fully transparent black for an absent value
/// and for one that holds no colour.
pub open spec fn color_of(value: Option<RuntimeValue>) -> Color {
    match value {
        Some(RuntimeValue { data: RuntimeData::Color(c), .. }) => c,
        _ => Color::spec_transparent(),
    }
}

/// The elements a value holds; none for an absent value and for one that
/// is no model.
pub open spec fn items_of(value: Option<RuntimeValue>) -> Seq<RuntimeValue> {
    match value {
        Some(RuntimeValue { data: RuntimeData::Array(items), .. }) => items@,
        _ => Seq::empty(),
    }
}

/// The fields a value holds; none for an absent value and for one that is
/// no struct.
pub open spec fn fields_of(value: Option<RuntimeValue>) -> Seq<RuntimeField> {
    match value {
        Some(RuntimeValue { data: RuntimeData::Struct(fields), .. }) => fields@,
        _ => Seq::empty(),
    }
}

/// The first of the fields from `from` on that has the given name.
pub open spec fn find_field(fields: Seq<RuntimeField>, name: Seq<char>, from: int) -> Option<
    RuntimeValue,
>
    decreases fields.len() - from,
{
    if from < 0 || from >= fields.len() {
        None
    } else if fields[from].name@ == name {
        Some(fields[from].value)
    } else {
        find_field(fields, name, from + 1)
    }
}

/// What the field of the given name holds in a struct value; absent where
/// the value is absent, is no struct, or has no such field.
pub open spec fn field_of(value: Option<RuntimeValue>, name: Seq<char>) -> Option<RuntimeValue> {
    find_field(fields_of(value), name, 0)
}

/// The JSON rendering of a value; empty for an absent one.
pub fn get_code(value: Option<&RuntimeValue>) -> (code: String)
    ensures
        code@ == code_of(referent(value)),
{
    match value {
        Some(v) => v.code.clone(),
        None => String::new(),
    }
}

/// The number a value holds, or zero.
pub fn get_number(value: Option<&RuntimeValue>) -> (n: Number)
    ensures
        n == number_of(referent(value)),
{
    match value {
        Some(v) => match &v.data {
            RuntimeData::Number { value, .. } => *value,
            _ => Number::zero(),
        },
        None => Number::zero(),
    }
}

/// The decimal rendering of the number a value holds, or `0`.
pub fn get_number_text(value: Option<&RuntimeValue>) -> (s: String)
    ensures
        s@ == number_text_of(referent(value)),
{
    match value {
        Some(v) => match &v.data {
            RuntimeData::Number { text, .. } => { return text.clone(); },
            _ => {},
        },
        None => {},
    }
    let mut s = String::new();
    s.push('0');
    assert(s@ =~= seq!['0']);
    s
}

/// The boolean a value holds, or `false`.
pub fn get_bool(value: Option<&RuntimeValue>) -> (b: bool)
    ensures
        b == bool_of(referent(value)),
{
    match value {
        Some(v) => match &v.data {
            RuntimeData::Bool(b) => *b,
            _ => false,
        },
        None => false,
    }
}

/// The text a value holds, or the empty text.
pub fn get_text(value: Option<&RuntimeValue>) -> (s: String)
    ensures
        s@ == text_of(referent(value)),
{
    match value {
        Some(v) => match &v.data {
            RuntimeData::Text(s) => s.clone(),
            _ => String::new(),
        },
        None => String::new(),
    }
}

/// The colour a value holds, or fully transparent black.
pub fn get_color(value: Option<&RuntimeValue>) -> (c: Color)
    ensures
        c == color_of(referent(value)),
{
    match value {
        Some(v) => match &v.data {
            RuntimeData::Color(c) => *c,
            _ => Color::transparent(),
        },
        None => Color::transparent(),
    }
}

/// What the field of the given name holds in a struct value.
pub fn get_field<'a>(value: Option<&'a RuntimeValue>, name: &String) -> (r: Option<
    &'a RuntimeValue,
>)
    ensures
        referent(r) == field_of(referent(value), name@),
{
    match value {
        Some(v) => match &v.data {
            RuntimeData::Struct(fields) => {
                let mut i: usize = 0;
                while i < fields.len()
                    invariant
                        i <= fields.len(),
                        fields_of(referent(value)) == fields@,
                        find_field(fields@, name@, 0) == find_field(fields@, name@, i as int),
                    decreases fields.len() - i,
                {
                    if fields[i].name == *name {
                        return Some(&fields[i].value);
                    }
                    i += 1;
                }
                None
            },
            _ => None,
        },
        None => None,
    }
}

} // verus!
