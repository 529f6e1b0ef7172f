//! The editable value: one property's value as an editor shows it.

use crate::color::Brush;
use crate::number::Number;
use crate::text::{clone_strings, strings_equal};
use vstd::prelude::*;

verus! {

/// The kind of an editable value: which editor serves it, and which of its
/// fields carry it.
#[derive(Clone, Copy, Debug, PartialEq, Eq, Structural)]
pub enum PropertyValueKind {
    /// A boolean, in `value_bool`.
    Boolean,
    /// A brush, in `value_brush`.
    Brush,
    /// Source text that no structured editor serves, in `code`.
    Code,
    /// A colour, in `value_brush`.
    Color,
    /// A member of an enumeration: the enumeration's name in `value_string`,
    /// its members in `visual_items`, the chosen member's index in
    /// `value_int`, and the declared default's index in `default_selection`.
    Enum,
    /// A number with a unit: the number in `value_float`, the accepted units
    /// in `visual_items`, and the unit's index in `value_int`.
    Float,
    /// An integer, in `value_int`.
    Integer,
    /// A text, in `value_string`, with what is known of its translation.
    String,
}

/// An editable value. The fields that its kind does not use hold their
/// defaults; `code` always holds the source text the value came from, and is
/// what tells two values apart when tables are compared.
#[derive(Debug, PartialEq, Eq)]
pub struct PropertyValue {
    pub kind: PropertyValueKind,
    pub value_bool: bool,
    pub is_translatable: bool,
    pub value_brush: Brush,
    pub value_float: Number,
    pub value_int: i32,
    pub default_selection: i32,
    pub value_string: String,
    pub visual_items: Vec<String>,
    pub tr_context: String,
    pub tr_plural: String,
    pub tr_plural_expression: String,
    pub code: String,
}

/// What an editable value holds, with its texts as sequences of characters.
pub struct PropertyValueModel {
    pub kind: PropertyValueKind,
    pub value_bool: bool,
    pub is_translatable: bool,
    pub value_brush: Brush,
    pub value_float: Number,
    pub value_int: i32,
    pub default_selection: i32,
    pub value_string: Seq<char>,
    pub visual_items: Seq<Seq<char>>,
    pub tr_context: Seq<char>,
    pub tr_plural: Seq<char>,
    pub tr_plural_expression: Seq<char>,
    pub code: Seq<char>,
}

impl PropertyValueModel {
    /// The value whose every field holds its default.
    pub open spec fn blank() -> PropertyValueModel {
        PropertyValueModel {
            kind: PropertyValueKind::Boolean,
            value_bool: false,
            is_translatable: false,
            value_brush: Brush::spec_transparent(),
            value_float: Number::spec_zero(),
            value_int: 0,
            default_selection: 0,
            value_string: Seq::empty(),
            visual_items: Seq::empty(),
            tr_context: Seq::empty(),
            tr_plural: Seq::empty(),
            tr_plural_expression: Seq::empty(),
            code: Seq::empty(),
        }
    }

    /// Source text alone: the value of kind `Code` that holds it.
    pub open spec fn code_only(code: Seq<char>) -> PropertyValueModel {
        PropertyValueModel { kind: PropertyValueKind::Code, code, ..PropertyValueModel::blank() }
    }

    /// Whether the value holds what its kind carries and nothing else: every
    /// field that the kind does not use holds its default. Every kind
    /// carries the source text, and may carry a text to show; a boolean
    /// carries `value_bool`; an integer `value_int`; a number `value_float`
    /// with the unit's index, the units and the default unit; a text what is
    /// known of its translation; a colour and a brush `value_brush`; and a
    /// member of an enumeration its index, the members and the default.
    pub open spec fn holds_one_kind(self) -> bool {
        let blank = PropertyValueModel::blank();
        let kind = self.kind;
        &&& kind == PropertyValueKind::Boolean || self.value_bool == blank.value_bool
        &&& kind == PropertyValueKind::String || {
            &&& self.is_translatable == blank.is_translatable
            &&& self.tr_context == blank.tr_context
            &&& self.tr_plural == blank.tr_plural
            &&& self.tr_plural_expression == blank.tr_plural_expression
        }
        &&& kind == PropertyValueKind::Color || kind == PropertyValueKind::Brush
            || self.value_brush == blank.value_brush
        &&& kind == PropertyValueKind::Float || self.value_float == blank.value_float
        &&& kind == PropertyValueKind::Integer || kind == PropertyValueKind::Float || kind
            == PropertyValueKind::Enum || self.value_int == blank.value_int
        &&& kind == PropertyValueKind::Float || kind == PropertyValueKind::Enum || {
            &&& self.default_selection == blank.default_selection
            &&& self.visual_items == blank.visual_items
        }
    }

    /// What must hold of a value for an editor to show it: a number's unit
    /// index points into its unit list, or the list is empty and the index
    /// is 0; an enumeration's index points into its member list.
    pub open spec fn well_formed(self) -> bool {
        &&& self.kind == PropertyValueKind::Float ==> (0 <= self.value_int
            < self.visual_items.len() || (self.visual_items.len() == 0 && self.value_int == 0))
        &&& self.kind == PropertyValueKind::Enum ==> 0 <= self.value_int < self.visual_items.len()
    }
}

impl DeepView for PropertyValue {
    type V = PropertyValueModel;

    open spec fn deep_view(&self) -> PropertyValueModel {
        PropertyValueModel {
            kind: self.kind,
            value_bool: self.value_bool,
            is_translatable: self.is_translatable,
            value_brush: self.value_brush,
            value_float: self.value_float,
            value_int: self.value_int,
            default_selection: self.default_selection,
            value_string: self.value_string@,
            visual_items: self.visual_items.deep_view(),
            tr_context: self.tr_context@,
            tr_plural: self.tr_plural@,
            tr_plural_expression: self.tr_plural_expression@,
            code: self.code@,
        }
    }
}

impl View for PropertyValue {
    type V = PropertyValueModel;

    open spec fn view(&self) -> PropertyValueModel {
        self.deep_view()
    }
}

impl PropertyValue {
    /// The value whose every field holds its default.
    pub fn new() -> (v: PropertyValue)
        ensures
            v@ == PropertyValueModel::blank(),
    {
        let v = PropertyValue {
            kind: PropertyValueKind::Boolean,
            value_bool: false,
            is_translatable: false,
            value_brush: Brush::transparent(),
            value_float: Number::zero(),
            value_int: 0,
            default_selection: 0,
            value_string: String::new(),
            visual_items: Vec::new(),
            tr_context: String::new(),
            tr_plural: String::new(),
            tr_plural_expression: String::new(),
            code: String::new(),
        };
        assert(v.visual_items.deep_view() =~= Seq::empty());
        v
    }

    /// Source text alone: the value of kind `Code` that holds it.
    pub fn from_code(code: String) -> (v: PropertyValue)
        ensures
            v@ == PropertyValueModel::code_only(code@),
    {
        let mut v = PropertyValue::new();
        v.kind = PropertyValueKind::Code;
        v.code = code;
        v
    }

    /// Tells whether two values hold the same in every field.
    pub fn equals(&self, other: &PropertyValue) -> (r: bool)
        ensures
            r == (self@ == other@),
    {
        self.kind == other.kind && self.value_bool == other.value_bool && self.is_translatable
            == other.is_translatable && self.value_brush == other.value_brush && self.value_float
            == other.value_float && self.value_int == other.value_int && self.default_selection
            == other.default_selection && self.value_string == other.value_string
            && strings_equal(&self.visual_items, &other.visual_items) && self.tr_context
            == other.tr_context && self.tr_plural == other.tr_plural && self.tr_plural_expression
            == other.tr_plural_expression && self.code == other.code
    }
}

impl Default for PropertyValue {
    fn default() -> (v: PropertyValue)
        ensures
            v@ == PropertyValueModel::blank(),
    {
        PropertyValue::new()
    }
}

impl Clone for PropertyValue {
    fn clone(&self) -> (r: PropertyValue)
        ensures
            r@ == self@,
    {
        PropertyValue {
            kind: self.kind,
            value_bool: self.value_bool,
            is_translatable: self.is_translatable,
            value_brush: self.value_brush,
            value_float: self.value_float,
            value_int: self.value_int,
            default_selection: self.default_selection,
            value_string: self.value_string.clone(),
            visual_items: clone_strings(&self.visual_items),
            tr_context: self.tr_context.clone(),
            tr_plural: self.tr_plural.clone(),
            tr_plural_expression: self.tr_plural_expression.clone(),
            code: self.code.clone(),
        }
    }
}

/// Copies a row of values.
pub fn clone_values(row: &Vec<PropertyValue>) -> (r: Vec<PropertyValue>)
    ensures
        r.deep_view() == row.deep_view(),
{
    let mut r: Vec<PropertyValue> = Vec::new();
    let mut i: usize = 0;
    while i < row.len()
        invariant
            i <= row.len(),
            r.len() == i,
            forall|j: int| 0 <= j < i ==> r@[j]@ == row@[j]@,
        decreases row.len() - i,
    {
        r.push(row[i].clone());
        i += 1;
    }
    assert(r.deep_view() =~= row.deep_view());
    r
}

/// Tells whether two rows hold the same values in the same order.
pub fn values_equal(a: &Vec<PropertyValue>, b: &Vec<PropertyValue>) -> (r: bool)
    ensures
        r == (a.deep_view() == b.deep_view()),
{
    if a.len() != b.len() {
        assert(a.deep_view().len() != b.deep_view().len());
        return false;
    }
    let mut i: usize = 0;
    while i < a.len()
        invariant
            i <= a.len(),
            a.len() == b.len(),
            forall|j: int| 0 <= j < i ==> a@[j]@ == b@[j]@,
        decreases a.len() - i,
    {
        if !a[i].equals(&b[i]) {
            assert(a.deep_view()[i as int] != b.deep_view()[i as int]);
            return false;
        }
        i += 1;
    }
    assert(a.deep_view() =~= b.deep_view());
    true
}

} // verus!
