//! Flattening of a running program's values into table rows: a struct
//! becomes columns with dotted names, an array one row for each element, and
//! what no table can hold becomes one cell of JSON.

use crate::color::{color_text, Brush};
use crate::live::{
    bool_of, code_of, color_of, field_of, get_bool, get_code, get_color, get_field, get_number,
    get_number_text, get_text, items_of, number_of, number_text_of, referent, text_of,
    RuntimeData, RuntimeValue,
};
use crate::text::{decimal, int_to_string};
use crate::types::{Field, Type};
use crate::units::{
    angle_unit_table, angle_units, duration_unit_table, duration_units, length_unit_table,
    length_units, percent_unit_table, percent_units, unit_model, unit_name, unit_names, Unit,
};
use crate::value::{PropertyValue, PropertyValueKind, PropertyValueModel};
use vstd::prelude::*;

verus! {

/// The result of flattening one value: the column names, and the rows of
/// values under them.
#[derive(Debug)]
pub struct ValueMapping {
    /// The name that the columns of the value start with.
    pub name_prefix: String,
    /// Whether the value was too complex for a table, and stands as JSON.
    pub is_too_complex: bool,
    /// Whether the value is an array, with one row for each element.
    pub is_array: bool,
    /// The column names.
    pub header: Vec<String>,
    /// The rows: one for each element of an array, one for any other value.
    pub array_values: Vec<Vec<PropertyValue>>,
}

/// What a flattened value holds.
pub struct ValueMappingModel {
    pub name_prefix: Seq<char>,
    pub is_too_complex: bool,
    pub is_array: bool,
    pub header: Seq<Seq<char>>,
    pub array_values: Seq<Seq<PropertyValueModel>>,
}

impl ValueMappingModel {
    /// What holds of every flattened value: each row has one value for each
    /// column; a value that is no array has exactly one row; and a value
    /// that was too complex has one column without a name, which holds one
    /// value of kind `Code`.
    pub open spec fn well_formed(self) -> bool {
        &&& forall|i: int|
            0 <= i < self.array_values.len() ==> (#[trigger] self.array_values[i]).len()
                == self.header.len()
        &&& !self.is_array ==> self.array_values.len() == 1
        &&& self.is_too_complex ==> {
            &&& !self.is_array
            &&& self.header == seq![Seq::<char>::empty()]
            &&& self.array_values[0][0].kind == PropertyValueKind::Code
        }
    }
}

impl DeepView for ValueMapping {
    type V = ValueMappingModel;

    open spec fn deep_view(&self) -> ValueMappingModel {
        ValueMappingModel {
            name_prefix: self.name_prefix@,
            is_too_complex: self.is_too_complex,
            is_array: self.is_array,
            header: self.header.deep_view(),
            array_values: self.array_values.deep_view(),
        }
    }
}

impl View for ValueMapping {
    type V = ValueMappingModel;

    open spec fn view(&self) -> ValueMappingModel {
        self.deep_view()
    }
}

/// A quantity with a unit: the number, its text followed by the unit it is
/// shown in, and the units it could be given in.
pub open spec fn quantity_value(
    value: Option<RuntimeValue>,
    units: Seq<Unit>,
    shown: Unit,
    default_selection: i32,
) -> PropertyValueModel {
    PropertyValueModel {
        kind: PropertyValueKind::Float,
        value_float: number_of(value),
        value_string: number_text_of(value) + unit_name(shown),
        visual_items: unit_names(units),
        value_int: 0,
        default_selection,
        code: code_of(value),
        ..PropertyValueModel::blank()
    }
}

/// The one value that a value of a type without columns of its own becomes.
/// An absent value gives the zero of the type.
pub open spec fn scalar_value(ty: Type, value: Option<RuntimeValue>) -> PropertyValueModel {
    match ty {
        Type::Float32 => PropertyValueModel {
            kind: PropertyValueKind::Float,
            value_float: number_of(value),
            value_string: number_text_of(value),
            code: code_of(value),
            ..PropertyValueModel::blank()
        },
        Type::Int32 => PropertyValueModel {
            kind: PropertyValueKind::Integer,
            value_int: number_of(value).spec_to_i32(),
            value_string: decimal(number_of(value).spec_to_i32() as int),
            code: code_of(value),
            ..PropertyValueModel::blank()
        },
        Type::Duration => quantity_value(value, duration_unit_table(), Unit::Ms, 1),
        Type::PhysicalLength | Type::LogicalLength | Type::Rem => quantity_value(
            value,
            length_unit_table(),
            Unit::Px,
            0,
        ),
        Type::Angle => quantity_value(value, angle_unit_table(), Unit::Deg, 0),
        Type::Percent => quantity_value(value, percent_unit_table(), Unit::Percent, 0),
        Type::String => PropertyValueModel {
            kind: PropertyValueKind::String,
            value_string: text_of(value),
            code: code_of(value),
            ..PropertyValueModel::blank()
        },
        Type::Color => PropertyValueModel {
            kind: PropertyValueKind::Color,
            value_brush: Brush::SolidColor(color_of(value)),
            value_string: color_text(color_of(value)),
            code: code_of(value),
            ..PropertyValueModel::blank()
        },
        Type::Bool => PropertyValueModel {
            kind: PropertyValueKind::Boolean,
            value_bool: bool_of(value),
            value_string: if bool_of(value) {
                "true"@
            } else {
                "false"@
            },
            code: code_of(value),
            ..PropertyValueModel::blank()
        },
        _ => PropertyValueModel {
            kind: PropertyValueKind::Code,
            value_string: "???"@,
            code: code_of(value),
            ..PropertyValueModel::blank()
        },
    }
}

/// The value of a type without columns of its own holds what its kind
/// carries and nothing else.
pub proof fn lemma_scalar_value_holds_one_kind(ty: Type, value: Option<RuntimeValue>)
    ensures
        scalar_value(ty, value).holds_one_kind(),
        scalar_value(ty, value).well_formed(),
        scalar_value(ty, value).code == code_of(value),
{
}

/// What stands for a value that is too complex for a table: one column
/// without a name, and in it the value's JSON as source text.
pub open spec fn escape_hatch(value: Option<RuntimeValue>, prefix: Seq<char>) -> ValueMappingModel {
    ValueMappingModel {
        name_prefix: prefix,
        is_too_complex: true,
        is_array: false,
        header: seq![Seq::<char>::empty()],
        array_values: seq![seq![PropertyValueModel::code_only(code_of(value))]],
    }
}

/// The name of a field's columns: the field's name, behind the name of what
/// holds it and a dot where that has a name.
pub open spec fn field_prefix(prefix: Seq<char>, name: Seq<char>) -> Seq<char> {
    if prefix.len() == 0 {
        name
    } else {
        prefix + seq!['.'] + name
    }
}

/// The first fields of a struct, flattened side by side.
pub struct FieldsModel {
    pub header: Seq<Seq<char>>,
    pub row: Seq<PropertyValueModel>,
    /// Whether one of the fields was an array or too complex in itself.
    pub is_too_complex: bool,
}

/// A value of a type, flattened. `prefix` is the name that its columns
/// start with.
pub open spec fn flatten(ty: Type, value: Option<RuntimeValue>, prefix: Seq<char>) -> ValueMappingModel
    decreases ty,
{
    match ty {
        Type::Array(element) => {
            let prototype = flatten(*element, None, prefix);
            if prototype.is_too_complex || prototype.is_array {
                escape_hatch(value, prefix)
            } else {
                ValueMappingModel {
                    name_prefix: prefix,
                    is_too_complex: false,
                    is_array: true,
                    header: prototype.header,
                    array_values: Seq::new(
                        items_of(value).len(),
                        |i: int| flatten(*element, Some(items_of(value)[i]), prefix).array_values[0],
                    ),
                }
            }
        },
        Type::Struct(fields) => {
            let flat = flatten_fields(fields@, value, prefix, fields@.len() as int);
            if flat.is_too_complex {
                escape_hatch(value, prefix)
            } else {
                ValueMappingModel {
                    name_prefix: prefix,
                    is_too_complex: false,
                    is_array: false,
                    header: flat.header,
                    array_values: seq![flat.row],
                }
            }
        },
        _ => ValueMappingModel {
            name_prefix: prefix,
            is_too_complex: false,
            is_array: false,
            header: seq![prefix],
            array_values: seq![seq![scalar_value(ty, value)]],
        },
    }
}

/// The first `count` fields of a struct value, each flattened under its own
/// name, side by side in declared order.
pub open spec fn flatten_fields(
    fields: Seq<Field>,
    value: Option<RuntimeValue>,
    prefix: Seq<char>,
    count: int,
) -> FieldsModel
    decreases fields, count,
{
    if count <= 0 || count > fields.len() {
        FieldsModel { header: Seq::empty(), row: Seq::empty(), is_too_complex: false }
    } else {
        let before = flatten_fields(fields, value, prefix, count - 1);
        let field = fields[count - 1];
        let flat = flatten(
            field.ty,
            field_of(value, field.name@),
            field_prefix(prefix, field.name@),
        );
        FieldsModel {
            header: before.header + flat.header,
            row: before.row + flat.array_values[0],
            is_too_complex: before.is_too_complex || flat.is_too_complex || flat.is_array,
        }
    }
}

fn quantity(
    value: Option<&RuntimeValue>,
    units: Vec<Unit>,
    shown: Unit,
    default_selection: i32,
) -> (v: PropertyValue)
    ensures
        v@ == quantity_value(referent(value), units@, shown, default_selection),
{
    let mut text = get_number_text(value);
    text.append(shown.name());
    let mut v = PropertyValue::new();
    v.kind = PropertyValueKind::Float;
    v.value_float = get_number(value);
    v.value_string = text;
    v.visual_items = unit_model(&units);
    v.value_int = 0;
    v.default_selection = default_selection;
    v.code = get_code(value);
    v
}

/// Makes the one value that a value of a type without columns of its own
/// becomes.
pub fn scalar_property_value(ty: &Type, value: Option<&RuntimeValue>) -> (v: PropertyValue)
    ensures
        v@ == scalar_value(*ty, referent(value)),
{
    match ty {
        Type::Float32 => {
            let mut v = PropertyValue::new();
            v.kind = PropertyValueKind::Float;
            v.value_float = get_number(value);
            v.value_string = get_number_text(value);
            v.code = get_code(value);
            v
        },
        Type::Int32 => {
            let n = get_number(value).to_i32();
            let mut v = PropertyValue::new();
            v.kind = PropertyValueKind::Integer;
            v.value_int = n;
            v.value_string = int_to_string(n);
            v.code = get_code(value);
            v
        },
        Type::Duration => quantity(value, duration_units(), Unit::Ms, 1),
        Type::PhysicalLength | Type::LogicalLength | Type::Rem => quantity(
            value,
            length_units(),
            Unit::Px,
            0,
        ),
        Type::Angle => quantity(value, angle_units(), Unit::Deg, 0),
        Type::Percent => quantity(value, percent_units(), Unit::Percent, 0),
        Type::String => {
            let mut v = PropertyValue::new();
            v.kind = PropertyValueKind::String;
            v.value_string = get_text(value);
            v.code = get_code(value);
            v
        },
        Type::Color => {
            let color = get_color(value);
            let mut v = PropertyValue::new();
            v.kind = PropertyValueKind::Color;
            v.value_brush = Brush::SolidColor(color);
            v.value_string = color.to_text();
            v.code = get_code(value);
            v
        },
        Type::Bool => {
            let b = get_bool(value);
            let mut v = PropertyValue::new();
            v.kind = PropertyValueKind::Boolean;
            v.value_bool = b;
            v.value_string = if b {
                String::from_str("true")
            } else {
                String::from_str("false")
            };
            v.code = get_code(value);
            v
        },
        _ => {
            let mut v = PropertyValue::new();
            v.kind = PropertyValueKind::Code;
            v.value_string = String::from_str("???");
            v.code = get_code(value);
            v
        },
    }
}

/// The shape of a flattened value is that of its type: whether it is an
/// array, whether it is too complex, and its column names are the same for
/// every value of the type. A value that is no array has exactly one row.
pub proof fn lemma_flatten_shape(
    ty: Type,
    a: Option<RuntimeValue>,
    b: Option<RuntimeValue>,
    prefix: Seq<char>,
)
    ensures
        flatten(ty, a, prefix).is_array == flatten(ty, b, prefix).is_array,
        flatten(ty, a, prefix).is_too_complex == flatten(ty, b, prefix).is_too_complex,
        flatten(ty, a, prefix).header == flatten(ty, b, prefix).header,
        !flatten(ty, a, prefix).is_array ==> flatten(ty, a, prefix).array_values.len() == 1,
    decreases ty,
{
    match ty {
        Type::Array(element) => {},
        Type::Struct(fields) => {
            lemma_flatten_fields_shape(fields@, a, b, prefix, fields@.len() as int);
        },
        _ => {},
    }
}

/// The shape of flattened fields is that of their types.
pub proof fn lemma_flatten_fields_shape(
    fields: Seq<Field>,
    a: Option<RuntimeValue>,
    b: Option<RuntimeValue>,
    prefix: Seq<char>,
    count: int,
)
    ensures
        flatten_fields(fields, a, prefix, count).is_too_complex == flatten_fields(
            fields,
            b,
            prefix,
            count,
        ).is_too_complex,
        flatten_fields(fields, a, prefix, count).header == flatten_fields(
            fields,
            b,
            prefix,
            count,
        ).header,
    decreases fields, count,
{
    if 0 < count <= fields.len() {
        lemma_flatten_fields_shape(fields, a, b, prefix, count - 1);
        let field = fields[count - 1];
        lemma_flatten_shape(
            field.ty,
            field_of(a, field.name@),
            field_of(b, field.name@),
            field_prefix(prefix, field.name@),
        );
    }
}

/// Every flattened value is well formed: its rows are as long as its
/// header, it has exactly one row unless it is an array, and where it was
/// too complex it is one unnamed column that holds source text.
pub proof fn lemma_flatten_well_formed(ty: Type, value: Option<RuntimeValue>, prefix: Seq<char>)
    ensures
        flatten(ty, value, prefix).well_formed(),
        flatten(ty, value, prefix).name_prefix == prefix,
    decreases ty,
{
    let flat = flatten(ty, value, prefix);
    match ty {
        Type::Array(element) => {
            let prototype = flatten(*element, None, prefix);
            lemma_flatten_well_formed(*element, None, prefix);
            if !(prototype.is_too_complex || prototype.is_array) {
                assert forall|i: int| 0 <= i < flat.array_values.len() implies (
                #[trigger] flat.array_values[i]).len() == flat.header.len() by {
                    let item = Some(items_of(value)[i]);
                    lemma_flatten_well_formed(*element, item, prefix);
                    lemma_flatten_shape(*element, item, None, prefix);
                }
            }
        },
        Type::Struct(fields) => {
            lemma_flatten_fields_well_formed(fields@, value, prefix, fields@.len() as int);
        },
        _ => {},
    }
}

/// Flattened fields have one value for each column.
pub proof fn lemma_flatten_fields_well_formed(
    fields: Seq<Field>,
    value: Option<RuntimeValue>,
    prefix: Seq<char>,
    count: int,
)
    ensures
        !flatten_fields(fields, value, prefix, count).is_too_complex ==> flatten_fields(
            fields,
            value,
            prefix,
            count,
        ).row.len() == flatten_fields(fields, value, prefix, count).header.len(),
    decreases fields, count,
{
    if 0 < count <= fields.len() {
        lemma_flatten_fields_well_formed(fields, value, prefix, count - 1);
        let field = fields[count - 1];
        lemma_flatten_well_formed(
            field.ty,
            field_of(value, field.name@),
            field_prefix(prefix, field.name@),
        );
    }
}

fn escape(value: Option<&RuntimeValue>, name_prefix: &String) -> (mapping: ValueMapping)
    ensures
        mapping@ == escape_hatch(referent(value), name_prefix@),
{
    let mut header: Vec<String> = Vec::new();
    header.push(String::new());
    let mut row: Vec<PropertyValue> = Vec::new();
    row.push(PropertyValue::from_code(get_code(value)));
    let mut array_values: Vec<Vec<PropertyValue>> = Vec::new();
    array_values.push(row);
    let mapping = ValueMapping {
        name_prefix: name_prefix.clone(),
        is_too_complex: true,
        is_array: false,
        header,
        array_values,
    };
    proof {
        let hatch = escape_hatch(referent(value), name_prefix@);
        assert(mapping@.header =~= hatch.header);
        assert(mapping@.array_values[0] =~= hatch.array_values[0]);
        assert(mapping@.array_values =~= hatch.array_values);
    }
    mapping
}

fn field_name_prefix(name_prefix: &String, name: &String) -> (r: String)
    ensures
        r@ == field_prefix(name_prefix@, name@),
{
    if name_prefix.as_str().unicode_len() == 0 {
        name.clone()
    } else {
        let mut r = name_prefix.clone();
        r.push('.');
        r.append(name.as_str());
        assert(r@ =~= name_prefix@ + seq!['.'] + name@);
        r
    }
}

/// Flattens a value of a type into a header and rows. `name_prefix` is the
/// name that the columns start with: empty for a property's own value.
///
/// A value of a type without columns of its own becomes one column that
/// carries the prefix as its name. A struct becomes the columns of its
/// fields, side by side in declared order, in one row. An array becomes the
/// columns of its element type and one row for each element. An array of
/// arrays, a struct that holds an array, and whatever holds one of these
/// become one unnamed column with the whole value as JSON.
#[verifier::loop_isolation(false)]
pub fn map_value_and_type(ty: &Type, value: Option<&RuntimeValue>, name_prefix: &String) -> (mapping:
    ValueMapping)
    ensures
        mapping@ == flatten(*ty, referent(value), name_prefix@),
        mapping@.well_formed(),
    decreases *ty,
{
    proof {
        lemma_flatten_well_formed(*ty, referent(value), name_prefix@);
    }
    match ty {
        Type::Array(element) => {
            let prototype = map_value_and_type(element, None, name_prefix);
            if prototype.is_too_complex || prototype.is_array {
                return escape(value, name_prefix);
            }
            let mut rows: Vec<Vec<PropertyValue>> = Vec::new();
            match value {
                Some(v) => match &v.data {
                    RuntimeData::Array(items) => {
                        let mut i: usize = 0;
                        while i < items.len()
                            invariant
                                i <= items.len(),
                                rows.len() == i,
                                forall|j: int|
                                    0 <= j < i ==> (#[trigger] rows@[j]).deep_view() == flatten(
                                        **element,
                                        Some(items@[j]),
                                        name_prefix@,
                                    ).array_values[0],
                            decreases items.len() - i,
                        {
                            let mut flat = map_value_and_type(element, Some(&items[i]), name_prefix);
                            proof {
                                lemma_flatten_shape(
                                    **element,
                                    Some(items@[i as int]),
                                    None,
                                    name_prefix@,
                                );
                            }
                            let ghost before = flat.array_values.deep_view();
                            let row = flat.array_values.pop();
                            match row {
                                Some(row) => {
                                    assert(row.deep_view() == before[0]);
                                    rows.push(row);
                                },
                                None => {},
                            }
                            i += 1;
                        }
                    },
                    _ => {},
                },
                None => {},
            }
            let mapping = ValueMapping {
                name_prefix: name_prefix.clone(),
                is_too_complex: false,
                is_array: true,
                header: prototype.header,
                array_values: rows,
            };
            assert(mapping@.array_values =~= flatten(
                *ty,
                referent(value),
                name_prefix@,
            ).array_values);
            mapping
        },
        Type::Struct(fields) => {
            let mut header: Vec<String> = Vec::new();
            let mut row: Vec<PropertyValue> = Vec::new();
            let mut is_too_complex = false;
            let mut i: usize = 0;
            assert(header.deep_view() =~= Seq::empty());
            assert(row.deep_view() =~= Seq::empty());
            while i < fields.len()
                invariant
                    i <= fields.len(),
                    header.deep_view() == flatten_fields(
                        fields@,
                        referent(value),
                        name_prefix@,
                        i as int,
                    ).header,
                    !is_too_complex ==> row.deep_view() == flatten_fields(
                        fields@,
                        referent(value),
                        name_prefix@,
                        i as int,
                    ).row,
                    is_too_complex == flatten_fields(
                        fields@,
                        referent(value),
                        name_prefix@,
                        i as int,
                    ).is_too_complex,
                decreases fields.len() - i,
            {
                let field = &fields[i];
                let prefix = field_name_prefix(name_prefix, &field.name);
                let mut flat = map_value_and_type(
                    &field.ty,
                    get_field(value, &field.name),
                    &prefix,
                );
                let ghost old_header = header.deep_view();
                let ghost old_row = row.deep_view();
                let ghost flat_model = flat@;
                is_too_complex = is_too_complex || flat.is_too_complex || flat.is_array;
                header.append(&mut flat.header);
                match flat.array_values.pop() {
                    Some(mut values) => {
                        if !flat.is_array {
                            assert(values.deep_view() == flat_model.array_values[0]);
                        }
                        row.append(&mut values);
                    },
                    None => {},
                }
                i += 1;
                proof {
                    assert(header.deep_view() =~= old_header + flat_model.header);
                    if !is_too_complex {
                        assert(row.deep_view() =~= old_row + flat_model.array_values[0]);
                    }
                }
            }
            if is_too_complex {
                return escape(value, name_prefix);
            }
            let mut array_values: Vec<Vec<PropertyValue>> = Vec::new();
            array_values.push(row);
            let mapping = ValueMapping {
                name_prefix: name_prefix.clone(),
                is_too_complex: false,
                is_array: false,
                header,
                array_values,
            };
            assert(mapping@.array_values =~= flatten(
                *ty,
                referent(value),
                name_prefix@,
            ).array_values);
            mapping
        },
        _ => {
            let mut header: Vec<String> = Vec::new();
            header.push(name_prefix.clone());
            let mut row: Vec<PropertyValue> = Vec::new();
            row.push(scalar_property_value(ty, value));
            let mut array_values: Vec<Vec<PropertyValue>> = Vec::new();
            array_values.push(row);
            let mapping = ValueMapping {
                name_prefix: name_prefix.clone(),
                is_too_complex: false,
                is_array: false,
                header,
                array_values,
            };
            proof {
                let flat = flatten(*ty, referent(value), name_prefix@);
                assert(mapping@.header =~= flat.header);
                assert(mapping@.array_values[0] =~= flat.array_values[0]);
                assert(mapping@.array_values =~= flat.array_values);
            }
            mapping
        },
    }
}

/// An array of arrays is always too complex, whatever its elements and
/// whatever it holds: it is flattened to one unnamed column, with one row
/// that holds the whole value's JSON as source text.
pub proof fn lemma_array_of_arrays_is_too_complex(
    element: Type,
    value: Option<RuntimeValue>,
    prefix: Seq<char>,
)
    ensures
        ({
            let flat = flatten(
                Type::Array(Box::new(Type::Array(Box::new(element)))),
                value,
                prefix,
            );
            &&& flat == escape_hatch(value, prefix)
            &&& flat.is_too_complex
            &&& !flat.is_array
            &&& flat.header == seq![Seq::<char>::empty()]
            &&& flat.array_values.len() == 1
            &&& flat.array_values[0].len() == 1
            &&& flat.array_values[0][0] == PropertyValueModel::code_only(code_of(value))
        }),
{
    let inner = Type::Array(Box::new(element));
    let prototype = flatten(inner, None, prefix);
    assert(prototype.is_too_complex || prototype.is_array);
}

/// Once one of the fields counted so far is an array, the fields are too
/// complex.
proof fn lemma_array_field_is_too_complex(
    fields: Seq<Field>,
    index: int,
    value: Option<RuntimeValue>,
    prefix: Seq<char>,
    count: int,
)
    requires
        0 <= index < count <= fields.len(),
        fields[index].ty is Array,
    ensures
        flatten_fields(fields, value, prefix, count).is_too_complex,
    decreases count,
{
    if index == count - 1 {
        let field = fields[index];
        let flat = flatten(
            field.ty,
            field_of(value, field.name@),
            field_prefix(prefix, field.name@),
        );
        assert(flat.is_too_complex || flat.is_array);
    } else {
        lemma_array_field_is_too_complex(fields, index, value, prefix, count - 1);
    }
}

/// A struct one of whose fields is an array is too complex: the whole value
/// is flattened to one unnamed column of JSON.
pub proof fn lemma_struct_with_array_is_too_complex(
    fields: Vec<Field>,
    index: int,
    value: Option<RuntimeValue>,
    prefix: Seq<char>,
)
    requires
        0 <= index < fields@.len(),
        fields@[index].ty is Array,
    ensures
        flatten(Type::Struct(fields), value, prefix) == escape_hatch(value, prefix),
        flatten(Type::Struct(fields), value, prefix).is_too_complex,
{
    lemma_array_field_is_too_complex(fields@, index, value, prefix, fields@.len() as int);
}

/// A value of a type without columns of its own is flattened to one column,
/// named by the prefix, with one row that holds the value.
pub proof fn lemma_flatten_scalar(ty: Type, value: Option<RuntimeValue>, prefix: Seq<char>)
    requires
        ty.is_scalar(),
    ensures
        flatten(ty, value, prefix) == (ValueMappingModel {
            name_prefix: prefix,
            is_too_complex: false,
            is_array: false,
            header: seq![prefix],
            array_values: seq![seq![scalar_value(ty, value)]],
        }),
{
}

/// The first fields of a struct whose fields have no columns of their own:
/// one column for each field, in declared order.
proof fn lemma_scalar_fields(
    fields: Seq<Field>,
    value: Option<RuntimeValue>,
    prefix: Seq<char>,
    count: int,
)
    requires
        0 <= count <= fields.len(),
        forall|i: int| 0 <= i < fields.len() ==> (#[trigger] fields[i]).ty.is_scalar(),
    ensures
        ({
            let flat = flatten_fields(fields, value, prefix, count);
            &&& !flat.is_too_complex
            &&& flat.header.len() == count
            &&& flat.row.len() == count
            &&& forall|i: int|
                0 <= i < count ==> #[trigger] flat.header[i] == field_prefix(prefix, fields[i].name@)
            &&& forall|i: int|
                0 <= i < count ==> #[trigger] flat.row[i] == scalar_value(
                    fields[i].ty,
                    field_of(value, fields[i].name@),
                )
        }),
    decreases count,
{
    if count > 0 {
        lemma_scalar_fields(fields, value, prefix, count - 1);
        let field = fields[count - 1];
        assert(field.ty.is_scalar());
        lemma_flatten_scalar(
            field.ty,
            field_of(value, field.name@),
            field_prefix(prefix, field.name@),
        );
    }
}

/// A struct whose fields have no columns of their own is flattened to one
/// row with one column for each field, in declared order: the column is
/// named after the field, behind the prefix and a dot where there is a
/// prefix, and holds the field's value.
pub proof fn lemma_struct_of_scalars(
    fields: Vec<Field>,
    value: Option<RuntimeValue>,
    prefix: Seq<char>,
)
    requires
        forall|i: int| 0 <= i < fields@.len() ==> (#[trigger] fields@[i]).ty.is_scalar(),
    ensures
        ({
            let flat = flatten(Type::Struct(fields), value, prefix);
            &&& !flat.is_too_complex
            &&& !flat.is_array
            &&& flat.header.len() == fields@.len()
            &&& flat.array_values.len() == 1
            &&& flat.array_values[0].len() == fields@.len()
            &&& forall|i: int|
                0 <= i < fields@.len() ==> #[trigger] flat.header[i] == field_prefix(
                    prefix,
                    fields@[i].name@,
                )
            &&& forall|i: int|
                0 <= i < fields@.len() ==> #[trigger] flat.array_values[0][i] == scalar_value(
                    fields@[i].ty,
                    field_of(value, fields@[i].name@),
                )
        }),
{
    lemma_scalar_fields(fields@, value, prefix, fields@.len() as int);
}

/// An array whose elements have no columns of their own is flattened to
/// one column, named by the prefix, and one row for each element: the row
/// holds the element's value, and nothing else.
pub proof fn lemma_array_of_scalars(element: Type, value: Option<RuntimeValue>, prefix: Seq<char>)
    requires
        element.is_scalar(),
    ensures
        ({
            let flat = flatten(Type::Array(Box::new(element)), value, prefix);
            &&& flat.is_array
            &&& !flat.is_too_complex
            &&& flat.header == seq![prefix]
            &&& flat.array_values.len() == items_of(value).len()
            &&& forall|i: int|
                0 <= i < items_of(value).len() ==> #[trigger] flat.array_values[i] == seq![
                    scalar_value(element, Some(items_of(value)[i])),
                ]
        }),
{
    let flat = flatten(Type::Array(Box::new(element)), value, prefix);
    lemma_flatten_scalar(element, None, prefix);
    assert forall|i: int| 0 <= i < items_of(value).len() implies #[trigger] flat.array_values[i]
        == seq![scalar_value(element, Some(items_of(value)[i]))] by {
        lemma_flatten_scalar(element, Some(items_of(value)[i]), prefix);
    }
}

} // verus!
