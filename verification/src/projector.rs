//! Projection of a property's binding into an editable value: a literal of
//! the shape its type expects becomes a typed value, and anything else
//! stays source text.

use crate::color::{Brush, Color};
use crate::expression::{
    DefaultValue, ExpressionModel, NumberLiteral, ParsedExpression, Translation, TranslationModel,
};
use crate::literals::{read_optional, read_optional_expression};
use crate::number::Number;
use crate::properties::PropertyInformation;
use crate::syntax_nodes::{Expression, UnaryOperator};
use crate::text::clone_strings;
use crate::types::{Enumeration, Type};
use crate::units::{
    angle_unit_table, angle_units, duration_unit_table, duration_units, length_unit_table,
    length_units, percent_unit_table, percent_units, position_of, unit_model, unit_names, Unit,
};
use crate::value::{PropertyValue, PropertyValueKind, PropertyValueModel};
use vstd::prelude::*;

verus! {

/// The number literal that an expression is: a number literal token, behind
/// any number of signs, each `-` turning the sign of the value. Absent for
/// every other expression.
pub open spec fn number_literal_of(expression: ExpressionModel) -> Option<NumberLiteral>
    decreases expression,
{
    match expression {
        ExpressionModel::Unary { operator, operand } => match operator {
            UnaryOperator::Minus => match number_literal_of(*operand) {
                Some(literal) => Some(
                    NumberLiteral { value: literal.value.spec_negated(), unit: literal.unit },
                ),
                None => None,
            },
            UnaryOperator::Plus => number_literal_of(*operand),
            UnaryOperator::Other => None,
        },
        ExpressionModel::NumberLiteral(literal) => literal,
        _ => None,
    }
}

/// Reads an expression as a number literal with its signs folded in.
pub fn convert_number_literal(node: &ParsedExpression) -> (r: Option<NumberLiteral>)
    ensures
        r == number_literal_of(node.deep_view()),
    decreases *node,
{
    match node {
        ParsedExpression::Unary { operator, operand } => match operator {
            UnaryOperator::Minus => match convert_number_literal(operand) {
                Some(literal) => Some(
                    NumberLiteral { value: literal.value.negated(), unit: literal.unit },
                ),
                None => None,
            },
            UnaryOperator::Plus => convert_number_literal(operand),
            UnaryOperator::Other => None,
        },
        ParsedExpression::NumberLiteral(literal) => *literal,
        _ => None,
    }
}

/// The index of a literal's unit in the unit list of a type: the first
/// place at which the unit stands in the list; 0 for a literal without a
/// unit where the list is empty; absent otherwise.
pub open spec fn unit_index(units: Seq<Unit>, unit: Unit) -> Option<int> {
    match units.index_of_first(unit) {
        Some(i) => Some(i),
        None => if units.len() == 0 && unit == Unit::Unitless {
            Some(0)
        } else {
            None
        },
    }
}

/// The number and the unit index that a binding gives a property of a
/// numeric type with the given units, where it gives one.
///
/// An expression gives the number it is as a literal, where its unit is one
/// of the type's. No binding at all gives the default value where that is a
/// number literal (with the first unit where its own is none of the
/// type's), and zero with the first unit otherwise. Any other binding gives
/// nothing.
pub open spec fn value_with_unit(
    expression: Option<ExpressionModel>,
    def_val: Option<DefaultValue>,
    code: Seq<char>,
    units: Seq<Unit>,
) -> Option<(PropertyValueKind, Number, i32)> {
    match expression {
        Some(e) => match number_literal_of(e) {
            Some(literal) => match unit_index(units, literal.unit) {
                Some(index) => Some((PropertyValueKind::Float, literal.value, index as i32)),
                None => None,
            },
            None => None,
        },
        None => if code.len() == 0 {
            match def_val {
                Some(DefaultValue::NumberLiteral(literal)) => Some(
                    (
                        PropertyValueKind::Float,
                        literal.value,
                        match units.index_of_first(literal.unit) {
                            Some(i) => i as i32,
                            None => 0i32,
                        },
                    ),
                ),
                _ => Some((PropertyValueKind::Float, Number::spec_zero(), 0i32)),
            }
        } else {
            None
        },
    }
}

/// Works out the number and the unit index that a binding gives a property
/// of a numeric type.
pub fn extract_value_with_unit_impl(
    expression: &Option<ParsedExpression>,
    def_val: &Option<DefaultValue>,
    code: &String,
    units: &Vec<Unit>,
) -> (r: Option<(PropertyValueKind, Number, i32)>)
    requires
        units@.len() <= i32::MAX,
    ensures
        r == value_with_unit(expression.deep_view(), *def_val, code@, units@),
{
    match expression {
        Some(e) => {
            match convert_number_literal(e) {
                Some(literal) => {
                    match position_of(units, literal.unit) {
                        Some(index) => Some(
                            (PropertyValueKind::Float, literal.value, index as i32),
                        ),
                        None => {
                            if units.len() == 0 && literal.unit == Unit::Unitless {
                                Some((PropertyValueKind::Float, literal.value, 0))
                            } else {
                                None
                            }
                        },
                    }
                },
                None => None,
            }
        },
        None => {
            if code.as_str().unicode_len() == 0 {
                match def_val {
                    Some(DefaultValue::NumberLiteral(literal)) => {
                        let index: i32 = match position_of(units, literal.unit) {
                            Some(i) => i as i32,
                            None => 0,
                        };
                        Some((PropertyValueKind::Float, literal.value, index))
                    },
                    _ => Some((PropertyValueKind::Float, Number::zero(), 0)),
                }
            } else {
                None
            }
        },
    }
}

/// A value after the projection of a numeric binding: where the binding
/// gives a number, the value carries it with the unit's index and the names
/// of the type's units; where not, the value is as it was.
pub open spec fn with_unit(
    value: PropertyValueModel,
    expression: Option<ExpressionModel>,
    def_val: Option<DefaultValue>,
    units: Seq<Unit>,
) -> PropertyValueModel {
    match value_with_unit(expression, def_val, value.code, units) {
        Some((kind, number, index)) => PropertyValueModel {
            kind,
            value_float: number,
            visual_items: unit_names(units),
            value_int: index,
            ..value
        },
        None => value,
    }
}

/// Projects a numeric binding into a value.
pub fn extract_value_with_unit(
    expression: &Option<ParsedExpression>,
    def_val: &Option<DefaultValue>,
    units: &Vec<Unit>,
    value: &mut PropertyValue,
)
    requires
        units@.len() <= i32::MAX,
    ensures
        final(value)@ == with_unit(old(value)@, expression.deep_view(), *def_val, units@),
{
    match extract_value_with_unit_impl(expression, def_val, &value.code, units) {
        Some((kind, v, index)) => {
            value.kind = kind;
            value.value_float = v;
            value.visual_items = unit_model(units);
            value.value_int = index;
        },
        None => {},
    }
}

/// A value after the projection of an expression as a colour: a colour
/// literal whose text is well formed gives the value the kind, the colour
/// as a solid brush, and the literal's text; anything else leaves the value
/// as it was.
pub open spec fn with_color(
    value: PropertyValueModel,
    expression: ExpressionModel,
    kind: PropertyValueKind,
) -> PropertyValueModel {
    match expression {
        ExpressionModel::ColorLiteral { text, color: Some(color) } => PropertyValueModel {
            kind,
            value_brush: Brush::SolidColor(color),
            value_string: text,
            ..value
        },
        _ => value,
    }
}

/// Projects an expression as a colour; tells whether it was a colour
/// literal.
pub fn extract_color(expression: &ParsedExpression, kind: PropertyValueKind, value: &mut PropertyValue) -> (r:
    bool)
    ensures
        final(value)@ == with_color(old(value)@, expression.deep_view(), kind),
        r == (expression.deep_view() matches ExpressionModel::ColorLiteral { color: Some(_), .. }),
{
    match expression {
        ParsedExpression::ColorLiteral { text, color: Some(color) } => {
            value.kind = kind;
            value.value_brush = Brush::SolidColor(*color);
            value.value_string = text.clone();
            true
        },
        _ => false,
    }
}

/// The default value that counts for a brush: what a conversion converts,
/// where the default value is a conversion.
pub open spec fn behind_cast(def_val: DefaultValue) -> DefaultValue {
    match def_val {
        DefaultValue::Cast(from) => *from,
        _ => def_val,
    }
}

/// A value after it was given the default brush: the colour that a default
/// number literal encodes, or fully transparent black with its text.
pub open spec fn with_default_brush(
    value: PropertyValueModel,
    kind: PropertyValueKind,
    def_val: Option<DefaultValue>,
) -> PropertyValueModel {
    let transparent = PropertyValueModel {
        kind,
        value_string: "#00000000"@,
        value_brush: Brush::spec_transparent(),
        ..value
    };
    match def_val {
        Some(d) => match behind_cast(d) {
            DefaultValue::NumberLiteral(literal) => PropertyValueModel {
                kind,
                value_brush: Brush::SolidColor(Color { argb: literal.value.spec_to_u32() }),
                ..value
            },
            _ => transparent,
        },
        None => transparent,
    }
}

fn default_number(def_val: &DefaultValue) -> (r: Option<NumberLiteral>)
    ensures
        r matches Some(literal) ==> *def_val == DefaultValue::NumberLiteral(literal),
        r is None ==> !(*def_val is NumberLiteral),
{
    match def_val {
        DefaultValue::NumberLiteral(literal) => Some(*literal),
        _ => None,
    }
}

/// Gives a value the default brush.
pub fn set_default_brush(
    kind: PropertyValueKind,
    def_val: &Option<DefaultValue>,
    value: &mut PropertyValue,
)
    ensures
        final(value)@ == with_default_brush(old(value)@, kind, *def_val),
{
    value.kind = kind;
    let literal = match def_val {
        Some(DefaultValue::Cast(from)) => default_number(from),
        Some(d) => default_number(d),
        None => None,
    };
    match literal {
        Some(literal) => {
            value.value_brush = Brush::SolidColor(
                Color::from_argb_encoded(literal.value.to_u32()),
            );
        },
        None => {
            value.value_string = String::from_str("#00000000");
            value.value_brush = Brush::transparent();
        },
    }
}

/// The text of an optional text; empty where there is none.
pub open spec fn text_or_empty(text: Option<Seq<char>>) -> Seq<char> {
    match text {
        Some(t) => t,
        None => Seq::empty(),
    }
}

/// Whether a translation marker can be edited as a translatable text: it
/// holds a text and interpolates no arguments, and where it has a plural
/// form, the expression that counts for it is a bare qualified name.
pub open spec fn is_editable_translation(tr: TranslationModel) -> bool {
    &&& tr.text is Some
    &&& tr.argument_count == 0
    &&& (text_or_empty(tr.plural).len() == 0 || tr.plural_expression is Some)
}

/// A value after the projection of a translation marker: where the marker
/// can be edited, a translatable text with its context, its plural form
/// and the text of the expression that counts for the plural; where not,
/// the value is as it was.
pub open spec fn with_tr_data(value: PropertyValueModel, tr: TranslationModel) -> PropertyValueModel {
    if is_editable_translation(tr) {
        PropertyValueModel {
            kind: PropertyValueKind::String,
            is_translatable: true,
            tr_context: text_or_empty(tr.context),
            tr_plural: text_or_empty(tr.plural),
            tr_plural_expression: text_or_empty(tr.plural_expression),
            value_string: text_or_empty(tr.text),
            ..value
        }
    } else {
        value
    }
}

fn unwrap_or_default(text: &Option<String>) -> (r: String)
    ensures
        r@ == text_or_empty(text.deep_view()),
{
    match text {
        Some(t) => t.clone(),
        None => String::new(),
    }
}

/// Projects a translation marker into a value.
pub fn extract_tr_data(tr_node: &Translation, value: &mut PropertyValue)
    ensures
        final(value)@ == with_tr_data(old(value)@, tr_node.deep_view()),
{
    let text = match &tr_node.text {
        Some(text) => text,
        None => { return ; },
    };
    let context = unwrap_or_default(&tr_node.context);
    let plural = unwrap_or_default(&tr_node.plural);
    let plural_is_empty = plural.as_str().unicode_len() == 0;
    // Arguments or a counted expression that is no name: edit as code.
    if tr_node.argument_count == 0 && (plural_is_empty || tr_node.plural_expression.is_some()) {
        value.kind = PropertyValueKind::String;
        value.is_translatable = true;
        value.tr_context = context;
        value.tr_plural = plural;
        value.tr_plural_expression = unwrap_or_default(&tr_node.plural_expression);
        value.value_string = text.clone();
    }
}

/// The member that a qualified name names: the name without the
/// enumeration's own name and a dot before it, where it starts with them.
pub open spec fn member_name(name: Seq<char>, enumeration: Seq<char>) -> Seq<char> {
    let prefix = enumeration + seq!['.'];
    if prefix.is_prefix_of(name) {
        name.skip(prefix.len() as int)
    } else {
        name
    }
}

fn strip_enumeration_name(name: &String, enumeration: &String) -> (r: String)
    ensures
        r@ == member_name(name@, enumeration@),
{
    let mut prefix = enumeration.clone();
    prefix.push('.');
    assert(prefix@ =~= enumeration@ + seq!['.']);
    let prefix_len = prefix.as_str().unicode_len();
    let name_len = name.as_str().unicode_len();
    if prefix_len > name_len {
        return name.clone();
    }
    let mut i: usize = 0;
    while i < prefix_len
        invariant
            i <= prefix_len <= name_len,
            prefix_len == prefix@.len(),
            name_len == name@.len(),
            prefix@ == enumeration@ + seq!['.'],
            forall|j: int| 0 <= j < i ==> prefix@[j] == name@[j],
        decreases prefix_len - i,
    {
        if prefix.as_str().get_char(i) != name.as_str().get_char(i) {
            assert(prefix@[i as int] != name@.subrange(0, prefix@.len() as int)[i as int]);
            return name.clone();
        }
        i += 1;
    }
    assert(prefix@ =~= name@.subrange(0, prefix@.len() as int));
    String::from_str(name.as_str().substring_char(prefix_len, name_len))
}

/// The index of an enumeration's declared default, as an editor holds it.
pub open spec fn default_index(enumeration: Enumeration) -> i32 {
    if enumeration.default_value <= i32::MAX {
        enumeration.default_value as i32
    } else {
        0
    }
}

/// The index of the member that a binding selects: the member that a
/// qualified name names, with or without the enumeration's name before it;
/// with no binding, the member that the default value names; and the
/// enumeration's declared default wherever that names no member.
pub open spec fn selected_index(
    enumeration: Enumeration,
    expression: Option<ExpressionModel>,
    def_val: Option<DefaultValue>,
) -> i32 {
    match expression {
        Some(ExpressionModel::QualifiedName { name, .. }) => {
            match enumeration.values.deep_view().index_of_first(
                member_name(name, enumeration.name@),
            ) {
                Some(i) => if i <= i32::MAX {
                    i as i32
                } else {
                    default_index(enumeration)
                },
                None => default_index(enumeration),
            }
        },
        Some(_) => default_index(enumeration),
        None => match def_val {
            Some(DefaultValue::EnumerationValue(v)) => if v < enumeration.values@.len() && v
                <= i32::MAX {
                v as i32
            } else {
                default_index(enumeration)
            },
            _ => default_index(enumeration),
        },
    }
}

fn position_of_member(values: &Vec<String>, member: &String) -> (r: Option<usize>)
    ensures
        r matches Some(i) ==> values.deep_view().index_of_first(member@) == Some(i as int),
        r is None ==> values.deep_view().index_of_first(member@) is None,
{
    let mut i: usize = 0;
    while i < values.len()
        invariant
            i <= values.len(),
            forall|j: int| 0 <= j < i ==> values.deep_view()[j] != member@,
        decreases values.len() - i,
    {
        if values[i] == *member {
            proof {
                assert(values.deep_view()[i as int] == member@);
                assert(values.deep_view().contains(member@));
                values.deep_view().index_of_first_ensures(member@);
            }
            return Some(i);
        }
        i += 1;
    }
    proof {
        values.deep_view().index_of_first_ensures(member@);
    }
    None
}

fn enumeration_default(enumeration: &Enumeration) -> (r: i32)
    ensures
        r == default_index(*enumeration),
{
    if enumeration.default_value <= i32::MAX as usize {
        enumeration.default_value as i32
    } else {
        0
    }
}

fn enumeration_selection(
    enumeration: &Enumeration,
    expression: &Option<ParsedExpression>,
    def_val: &Option<DefaultValue>,
) -> (r: i32)
    ensures
        r == selected_index(*enumeration, expression.deep_view(), *def_val),
{
    match expression {
        Some(ParsedExpression::QualifiedName { name, .. }) => {
            let member = strip_enumeration_name(name, &enumeration.name);
            match position_of_member(&enumeration.values, &member) {
                Some(i) => {
                    if i <= i32::MAX as usize {
                        i as i32
                    } else {
                        enumeration_default(enumeration)
                    }
                },
                None => enumeration_default(enumeration),
            }
        },
        Some(_) => enumeration_default(enumeration),
        None => match def_val {
            Some(DefaultValue::EnumerationValue(v)) => {
                if *v < enumeration.values.len() && *v <= i32::MAX as usize {
                    *v as i32
                } else {
                    enumeration_default(enumeration)
                }
            },
            _ => enumeration_default(enumeration),
        },
    }
}

/// The units that a numeric type accepts, the default first; none for a
/// plain number and for every type that is not numeric.
pub open spec fn units_of(ty: Type) -> Seq<Unit> {
    match ty {
        Type::Duration => duration_unit_table(),
        Type::PhysicalLength | Type::LogicalLength | Type::Rem => length_unit_table(),
        Type::Angle => angle_unit_table(),
        Type::Percent => percent_unit_table(),
        _ => Seq::empty(),
    }
}

/// The editable value of a binding. `code` is the binding's source text,
/// empty where there is no binding; `expression` is its parsed expression,
/// where it is an expression; `def_val` is the property's default value,
/// where it has one.
///
/// The value always carries `code`. It is of kind `Code`, and carries
/// nothing else, unless the expression is a literal of the shape that the
/// type expects, or there is no binding at all and the type has a zero
/// value; a value of an enumeration always is of kind `Enum`.
pub open spec fn project(
    ty: Type,
    code: Seq<char>,
    expression: Option<ExpressionModel>,
    def_val: Option<DefaultValue>,
) -> PropertyValueModel {
    let value = PropertyValueModel::code_only(code);
    match ty {
        Type::Float32 | Type::Duration | Type::PhysicalLength | Type::LogicalLength | Type::Rem
        | Type::Angle | Type::Percent => with_unit(value, expression, def_val, units_of(ty)),
        Type::Int32 => match expression {
            Some(e) => match number_literal_of(e) {
                Some(literal) => if literal.unit == Unit::Unitless {
                    PropertyValueModel {
                        kind: PropertyValueKind::Integer,
                        value_int: literal.value.spec_to_i32(),
                        ..value
                    }
                } else {
                    value
                },
                None => value,
            },
            None => if code.len() == 0 {
                PropertyValueModel { kind: PropertyValueKind::Integer, ..value }
            } else {
                value
            },
        },
        Type::Color => match expression {
            Some(e) => with_color(value, e, PropertyValueKind::Color),
            None => if code.len() == 0 {
                with_default_brush(value, PropertyValueKind::Color, def_val)
            } else {
                value
            },
        },
        Type::Brush => match expression {
            Some(e) => with_color(value, e, PropertyValueKind::Brush),
            None => if code.len() == 0 {
                with_default_brush(value, PropertyValueKind::Brush, def_val)
            } else {
                value
            },
        },
        Type::Bool => match expression {
            Some(ExpressionModel::QualifiedName { text, .. }) => if text == "true"@ || text
                == "false"@ {
                PropertyValueModel {
                    kind: PropertyValueKind::Boolean,
                    value_bool: text == "true"@,
                    ..value
                }
            } else {
                value
            },
            Some(_) => value,
            None => if code.len() == 0 {
                PropertyValueModel {
                    kind: PropertyValueKind::Boolean,
                    value_bool: match def_val {
                        Some(DefaultValue::BoolLiteral(b)) => b,
                        _ => false,
                    },
                    ..value
                }
            } else {
                value
            },
        },
        Type::String => match expression {
            Some(ExpressionModel::StringLiteral(Some(text))) => PropertyValueModel {
                kind: PropertyValueKind::String,
                value_string: text,
                ..value
            },
            Some(ExpressionModel::Translation(tr)) => with_tr_data(value, tr),
            Some(_) => value,
            None => if code.len() == 0 {
                PropertyValueModel {
                    kind: PropertyValueKind::String,
                    value_string: match def_val {
                        Some(DefaultValue::StringLiteral(text)) => text@,
                        _ => Seq::empty(),
                    },
                    ..value
                }
            } else {
                value
            },
        },
        Type::Enumeration(enumeration) => PropertyValueModel {
            kind: PropertyValueKind::Enum,
            value_string: enumeration.name@,
            default_selection: default_index(enumeration),
            visual_items: enumeration.values.deep_view(),
            value_int: selected_index(enumeration, expression, def_val),
            ..value
        },
        _ => value,
    }
}

/// The source text of a property's binding; empty where it has none.
pub open spec fn code_of_property(prop_info: PropertyInformation) -> Seq<char> {
    match prop_info.defined_at {
        Some(da) => da.code_block_or_expression.text@,
        None => Seq::empty(),
    }
}

/// The parsed expression of a property's binding, where it has one.
pub open spec fn expression_of_property(prop_info: PropertyInformation) -> Option<Expression> {
    match prop_info.defined_at {
        Some(da) => da.code_block_or_expression.expression,
        None => None,
    }
}

/// The editable value of a property: the value of its binding, with the
/// literals of the binding's expression read.
pub open spec fn simplified(prop_info: PropertyInformation) -> PropertyValueModel {
    project(
        prop_info.ty,
        code_of_property(prop_info),
        read_optional(expression_of_property(prop_info)),
        prop_info.default_value,
    )
}

fn project_bool(
    expression: &Option<ParsedExpression>,
    def_val: &Option<DefaultValue>,
    value: &mut PropertyValue,
)
    requires
        old(value)@ == PropertyValueModel::code_only(old(value)@.code),
    ensures
        final(value)@ == project(Type::Bool, old(value)@.code, expression.deep_view(), *def_val),
{
    match expression {
        Some(ParsedExpression::QualifiedName { text, .. }) => {
            let is_true = *text == String::from_str("true");
            let is_false = *text == String::from_str("false");
            if is_true || is_false {
                value.kind = PropertyValueKind::Boolean;
                value.value_bool = is_true;
            }
        },
        Some(_) => {},
        None => {
            if value.code.as_str().unicode_len() == 0 {
                match def_val {
                    Some(DefaultValue::BoolLiteral(b)) => {
                        value.value_bool = *b;
                    },
                    _ => {},
                }
                value.kind = PropertyValueKind::Boolean;
            }
        },
    }
}

fn project_string(
    expression: &Option<ParsedExpression>,
    def_val: &Option<DefaultValue>,
    value: &mut PropertyValue,
)
    requires
        old(value)@ == PropertyValueModel::code_only(old(value)@.code),
    ensures
        final(value)@ == project(Type::String, old(value)@.code, expression.deep_view(), *def_val),
{
    match expression {
        Some(ParsedExpression::StringLiteral(Some(text))) => {
            value.kind = PropertyValueKind::String;
            value.value_string = text.clone();
        },
        Some(ParsedExpression::Translation(tr_node)) => {
            extract_tr_data(tr_node, value);
        },
        Some(_) => {},
        None => {
            if value.code.as_str().unicode_len() == 0 {
                match def_val {
                    Some(DefaultValue::StringLiteral(text)) => {
                        value.value_string = text.clone();
                    },
                    _ => {},
                }
                value.kind = PropertyValueKind::String;
            }
        },
    }
}

/// Projects a binding into an editable value. `code` is the binding's
/// source text, empty where there is no binding; `expression` is its
/// expression with the literals read, where it is one expression; and
/// `def_val` is the property's default value, where it has one.
pub fn project_value(
    ty: &Type,
    code: String,
    expression: &Option<ParsedExpression>,
    def_val: &Option<DefaultValue>,
) -> (value: PropertyValue)
    ensures
        value@ == project(*ty, code@, expression.deep_view(), *def_val),
{
    let mut value = PropertyValue::from_code(code);

    match ty {
        Type::Float32 => {
            let units: Vec<Unit> = Vec::new();
            assert(units@ =~= units_of(*ty));
            extract_value_with_unit(expression, def_val, &units, &mut value);
        },
        Type::Duration => {
            extract_value_with_unit(expression, def_val, &duration_units(), &mut value);
        },
        Type::PhysicalLength | Type::LogicalLength | Type::Rem => {
            extract_value_with_unit(expression, def_val, &length_units(), &mut value);
        },
        Type::Angle => {
            extract_value_with_unit(expression, def_val, &angle_units(), &mut value);
        },
        Type::Percent => {
            extract_value_with_unit(expression, def_val, &percent_units(), &mut value);
        },
        Type::Int32 => {
            match expression {
                Some(e) => {
                    match convert_number_literal(e) {
                        Some(literal) => {
                            if literal.unit == Unit::Unitless {
                                value.kind = PropertyValueKind::Integer;
                                value.value_int = literal.value.to_i32();
                            }
                        },
                        None => {},
                    }
                },
                None => {
                    if value.code.as_str().unicode_len() == 0 {
                        value.kind = PropertyValueKind::Integer;
                    }
                },
            }
        },
        Type::Color => {
            match expression {
                Some(e) => {
                    extract_color(e, PropertyValueKind::Color, &mut value);
                },
                None => {
                    if value.code.as_str().unicode_len() == 0 {
                        set_default_brush(PropertyValueKind::Color, def_val, &mut value);
                    }
                },
            }
        },
        Type::Brush => {
            match expression {
                Some(e) => {
                    // A gradient is no colour literal, and stays source text.
                    extract_color(e, PropertyValueKind::Brush, &mut value);
                },
                None => {
                    if value.code.as_str().unicode_len() == 0 {
                        set_default_brush(PropertyValueKind::Brush, def_val, &mut value);
                    }
                },
            }
        },
        Type::Bool => {
            project_bool(expression, def_val, &mut value);
        },
        Type::String => {
            project_string(expression, def_val, &mut value);
        },
        Type::Enumeration(enumeration) => {
            value.kind = PropertyValueKind::Enum;
            value.value_string = enumeration.name.clone();
            value.default_selection = enumeration_default(enumeration);
            value.visual_items = clone_strings(&enumeration.values);
            value.value_int = enumeration_selection(enumeration, expression, def_val);
        },
        _ => {},
    }
    value
}

/// Projects a property's binding into an editable value: reads the
/// literals of the binding's expression, and projects what they give.
pub fn simplify_value(prop_info: &PropertyInformation) -> (value: PropertyValue)
    ensures
        value@ == simplified(*prop_info),
{
    match &prop_info.defined_at {
        Some(da) => {
            let expression = read_optional_expression(&da.code_block_or_expression.expression);
            project_value(
                &prop_info.ty,
                da.code_block_or_expression.text.clone(),
                &expression,
                &prop_info.default_value,
            )
        },
        None => {
            let expression: Option<ParsedExpression> = None;
            project_value(&prop_info.ty, String::new(), &expression, &prop_info.default_value)
        },
    }
}

impl Type {
    /// What must hold of a type: an enumeration is well formed.
    pub open spec fn well_formed(self) -> bool {
        self matches Type::Enumeration(enumeration) ==> enumeration.well_formed()
    }

    /// Whether the type is one of the numeric types that carry a unit.
    pub open spec fn has_units(self) -> bool {
        self is Float32 || self is Duration || self is PhysicalLength || self is LogicalLength
            || self is Rem || self is Angle || self is Percent
    }
}

/// Every projected value carries the source text of the binding, and is
/// well formed where the type is.
pub proof fn lemma_project_well_formed(
    ty: Type,
    code: Seq<char>,
    expression: Option<ExpressionModel>,
    def_val: Option<DefaultValue>,
)
    ensures
        project(ty, code, expression, def_val).code == code,
        ty.well_formed() ==> project(ty, code, expression, def_val).well_formed(),
        project(ty, code, expression, def_val).holds_one_kind(),
        ty is Enumeration ==> project(ty, code, expression, def_val).kind
            == PropertyValueKind::Enum,
{
    let units = units_of(ty);
    if ty.has_units() {
        match expression {
            Some(e) => match number_literal_of(e) {
                Some(literal) => {
                    units.index_of_first_ensures(literal.unit);
                },
                None => {},
            },
            None => match def_val {
                Some(DefaultValue::NumberLiteral(literal)) => {
                    units.index_of_first_ensures(literal.unit);
                },
                _ => {},
            },
        }
    }
    match ty {
        Type::Enumeration(enumeration) => {
            match expression {
                Some(ExpressionModel::QualifiedName { name, .. }) => {
                    enumeration.values.deep_view().index_of_first_ensures(
                        member_name(name, enumeration.name@),
                    );
                },
                _ => {},
            }
        },
        _ => {},
    }
}

/// A sign before a number literal is folded into the literal: `-` turns
/// the sign of the value and keeps its magnitude and its unit, `+` keeps
/// the literal as it is, and behind any other operator there is no literal.
pub proof fn lemma_sign_folding(operator: UnaryOperator, operand: ExpressionModel)
    ensures
        ({
            let signed = number_literal_of(ExpressionModel::Unary { operator, operand: Box::new(operand) });
            match number_literal_of(operand) {
                Some(literal) => match operator {
                    UnaryOperator::Minus => signed == Some(
                        NumberLiteral { value: literal.value.spec_negated(), unit: literal.unit },
                    ),
                    UnaryOperator::Plus => signed == Some(literal),
                    UnaryOperator::Other => signed is None,
                },
                None => signed is None,
            }
        }),
{
}

/// A number literal, bare or behind signs, projects for a numeric type with
/// units to a value of kind `Float` that holds the literal's value, with
/// its signs folded in, and the place of the literal's unit in the type's
/// unit list. Where the unit is none of the type's, the value stays source
/// text.
pub proof fn lemma_number_with_unit(
    ty: Type,
    code: Seq<char>,
    expression: ExpressionModel,
    def_val: Option<DefaultValue>,
    literal: NumberLiteral,
)
    requires
        ty.has_units(),
        number_literal_of(expression) == Some(literal),
    ensures
        ({
            let value = project(ty, code, Some(expression), def_val);
            let units = units_of(ty);
            if units.contains(literal.unit) {
                &&& value.kind == PropertyValueKind::Float
                &&& value.value_float == literal.value
                &&& 0 <= value.value_int < units.len()
                &&& units[value.value_int as int] == literal.unit
                &&& value.visual_items == unit_names(units)
                &&& value.code == code
            } else if units.len() == 0 && literal.unit == Unit::Unitless {
                &&& value.kind == PropertyValueKind::Float
                &&& value.value_float == literal.value
                &&& value.value_int == 0
                &&& value.visual_items.len() == 0
                &&& value.code == code
            } else {
                value == PropertyValueModel::code_only(code)
            }
        }),
{
    units_of(ty).index_of_first_ensures(literal.unit);
}

/// A number literal, bare or behind signs, projects for an integer to a
/// value of kind `Integer` that holds the literal's value, with its signs
/// folded in and truncated. Where the literal has a unit, the value stays
/// source text.
pub proof fn lemma_integer_literal(
    code: Seq<char>,
    expression: ExpressionModel,
    def_val: Option<DefaultValue>,
    literal: NumberLiteral,
)
    requires
        number_literal_of(expression) == Some(literal),
    ensures
        ({
            let value = project(Type::Int32, code, Some(expression), def_val);
            if literal.unit == Unit::Unitless {
                &&& value.kind == PropertyValueKind::Integer
                &&& value.value_int == literal.value.spec_to_i32()
                &&& value.code == code
            } else {
                value == PropertyValueModel::code_only(code)
            }
        }),
{
}

/// The name of a member, written with the enumeration's name and a dot
/// before it, selects the first member of that name. The value shows the
/// members in declared order.
pub proof fn lemma_qualified_member(
    enumeration: Enumeration,
    code: Seq<char>,
    text: Seq<char>,
    name: Seq<char>,
    def_val: Option<DefaultValue>,
    index: int,
)
    requires
        enumeration.well_formed(),
        0 <= index < enumeration.values@.len(),
        name == enumeration.name@ + seq!['.'] + enumeration.values@[index]@,
    ensures
        ({
            let value = project(
                Type::Enumeration(enumeration),
                code,
                Some(ExpressionModel::QualifiedName { text, name }),
                def_val,
            );
            &&& value.kind == PropertyValueKind::Enum
            &&& 0 <= value.value_int <= index
            &&& value.visual_items == enumeration.values.deep_view()
            &&& value.visual_items.len() > 0
            &&& value.visual_items[value.value_int as int] == enumeration.values@[index]@
            &&& forall|j: int|
                0 <= j < value.value_int ==> value.visual_items[j] != enumeration.values@[index]@
        }),
{
    let prefix = enumeration.name@ + seq!['.'];
    let member = enumeration.values@[index]@;
    assert(name =~= prefix + member);
    assert(prefix =~= name.subrange(0, prefix.len() as int));
    assert(name.skip(prefix.len() as int) =~= member);
    let values = enumeration.values.deep_view();
    assert(values[index] == member);
    assert(values.contains(member));
    values.index_of_first_ensures(member);
}

/// The bare name of a member selects the first member of that name, unless
/// the name itself starts with the enumeration's name and a dot.
pub proof fn lemma_unqualified_member(
    enumeration: Enumeration,
    code: Seq<char>,
    text: Seq<char>,
    name: Seq<char>,
    def_val: Option<DefaultValue>,
    index: int,
)
    requires
        enumeration.well_formed(),
        0 <= index < enumeration.values@.len(),
        name == enumeration.values@[index]@,
        !(enumeration.name@ + seq!['.']).is_prefix_of(name),
    ensures
        ({
            let value = project(
                Type::Enumeration(enumeration),
                code,
                Some(ExpressionModel::QualifiedName { text, name }),
                def_val,
            );
            &&& value.kind == PropertyValueKind::Enum
            &&& 0 <= value.value_int <= index
            &&& value.visual_items == enumeration.values.deep_view()
            &&& value.visual_items.len() > 0
            &&& value.visual_items[value.value_int as int] == enumeration.values@[index]@
            &&& forall|j: int|
                0 <= j < value.value_int ==> value.visual_items[j] != enumeration.values@[index]@
        }),
{
    let member = enumeration.values@[index]@;
    let values = enumeration.values.deep_view();
    assert(values[index] == member);
    assert(values.contains(member));
    values.index_of_first_ensures(member);
}

/// With no binding and no default value, and with an expression that names
/// no member, the value of an enumeration selects the declared default.
pub proof fn lemma_enumeration_default(
    enumeration: Enumeration,
    code: Seq<char>,
    expression: Option<ExpressionModel>,
)
    requires
        enumeration.well_formed(),
        match expression {
            Some(ExpressionModel::QualifiedName { name, .. }) => !enumeration.values.deep_view().contains(
                member_name(name, enumeration.name@),
            ),
            _ => true,
        },
    ensures
        ({
            let value = project(Type::Enumeration(enumeration), code, expression, None);
            &&& value.kind == PropertyValueKind::Enum
            &&& value.value_int == enumeration.default_value
            &&& value.default_selection == enumeration.default_value
            &&& value.value_string == enumeration.name@
            &&& value.visual_items == enumeration.values.deep_view()
            &&& value.visual_items.len() > 0
        }),
{
    match expression {
        Some(ExpressionModel::QualifiedName { name, .. }) => {
            enumeration.values.deep_view().index_of_first_ensures(
                member_name(name, enumeration.name@),
            );
        },
        _ => {},
    }
}

/// A translation marker projects to a translatable text with its context
/// and plural form where it holds a text, interpolates nothing, and counts
/// its plural, if it has one, by a bare name. An interpolated argument, and
/// a plural counted by anything but a name, leave the value source text.
pub proof fn lemma_translation(code: Seq<char>, tr: TranslationModel, def_val: Option<DefaultValue>)
    ensures
        ({
            let value = project(Type::String, code, Some(ExpressionModel::Translation(tr)), def_val);
            if tr.text is Some && tr.argument_count == 0 && (text_or_empty(tr.plural).len() == 0
                || tr.plural_expression is Some) {
                &&& value.kind == PropertyValueKind::String
                &&& value.is_translatable
                &&& value.value_string == tr.text->0
                &&& value.tr_context == text_or_empty(tr.context)
                &&& value.tr_plural == text_or_empty(tr.plural)
                &&& value.tr_plural_expression == text_or_empty(tr.plural_expression)
                &&& value.code == code
            } else {
                value == PropertyValueModel::code_only(code)
            }
        }),
{
}

} // verus!
