//! The literals of the language, read by the language's own literal
//! functions.

use crate::color::Color;
use crate::expression::{
    ExpressionModel, NumberLiteral, ParsedExpression, Translation, TranslationModel,
};
use crate::number::Number;
use crate::syntax_nodes::{AtTr, Expression};
use crate::units::{unit_name, Unit};
use vstd::prelude::*;

verus! {

/// What `parse_color_literal` makes of a text: the colour as `0xaarrggbb`,
/// or nothing where the text is no colour literal.
pub uninterp spec fn color_literal_value(text: Seq<char>) -> Option<u32>;

/// What `unescape_string` makes of a string literal token: the text
/// without its quotes and with its escapes resolved, or nothing where the
/// token is malformed.
pub uninterp spec fn unescaped_string(text: Seq<char>) -> Option<Seq<char>>;

/// What `parse_number_literal` makes of a text: the bit pattern of the
/// value and the name of the unit, or nothing where the text is no number
/// with a known unit behind it.
pub uninterp spec fn number_literal_value(text: Seq<char>) -> Option<(u64, Seq<char>)>;

/// `literals::parse_color_literal` of `i_slint_compiler`: reads `#rgb`,
/// `#rgba`, `#rrggbb` and `#rrggbbaa`, and gives the colour as
/// `0xaarrggbb`. The result depends on the text alone, and has the name
/// `color_literal_value`.
#[verifier::external_body]
pub(crate) fn parse_color_literal(text: &str) -> (r: Option<u32>)
    ensures
        r == color_literal_value(text@),
{
    i_slint_compiler::literals::parse_color_literal(text)
}

/// `literals::unescape_string` of `i_slint_compiler`: takes the quotes off
/// a string literal token and resolves its escapes. The result depends on
/// the token alone, and has the name `unescaped_string`.
#[verifier::external_body]
pub(crate) fn unescape_string(text: &str) -> (r: Option<String>)
    ensures
        r.deep_view() == unescaped_string(text@),
{
    match i_slint_compiler::literals::unescape_string(text) {
        Some(s) => Some(s.to_string()),
        None => None,
    }
}

/// `literals::parse_number_literal` of `i_slint_compiler`: splits a number
/// literal into its digits and its unit, and reads both. The value is
/// handed on as its bit pattern and the unit as its name. The result
/// depends on the text alone, and has the name `number_literal_value`.
#[verifier::external_body]
pub(crate) fn parse_number_literal(text: &str) -> (r: Option<(u64, String)>)
    ensures
        match r {
            Some((bits, unit)) => number_literal_value(text@) == Some((bits, unit@)),
            None => number_literal_value(text@) is None,
        },
{
    match i_slint_compiler::literals::parse_number_literal(text.into()) {
        Ok(i_slint_compiler::expression_tree::Expression::NumberLiteral(value, unit)) => Some(
            (value.to_bits(), unit.to_string()),
        ),
        _ => None,
    }
}

/// The unit of a name, where a unit has the name.
pub open spec fn unit_named(name: Seq<char>) -> Option<Unit> {
    if name == unit_name(Unit::Unitless) {
        Some(Unit::Unitless)
    } else if name == unit_name(Unit::Percent) {
        Some(Unit::Percent)
    } else if name == unit_name(Unit::Phx) {
        Some(Unit::Phx)
    } else if name == unit_name(Unit::Px) {
        Some(Unit::Px)
    } else if name == unit_name(Unit::Cm) {
        Some(Unit::Cm)
    } else if name == unit_name(Unit::Mm) {
        Some(Unit::Mm)
    } else if name == unit_name(Unit::In) {
        Some(Unit::In)
    } else if name == unit_name(Unit::Pt) {
        Some(Unit::Pt)
    } else if name == unit_name(Unit::Rem) {
        Some(Unit::Rem)
    } else if name == unit_name(Unit::S) {
        Some(Unit::S)
    } else if name == unit_name(Unit::Ms) {
        Some(Unit::Ms)
    } else if name == unit_name(Unit::Deg) {
        Some(Unit::Deg)
    } else if name == unit_name(Unit::Grad) {
        Some(Unit::Grad)
    } else if name == unit_name(Unit::Turn) {
        Some(Unit::Turn)
    } else if name == unit_name(Unit::Rad) {
        Some(Unit::Rad)
    } else {
        None
    }
}

/// Every unit is the unit of its own name: no two units have one name.
pub proof fn lemma_unit_names_are_distinct(unit: Unit)
    ensures
        unit_named(unit_name(unit)) == Some(unit),
{
    reveal_strlit("");
    reveal_strlit("%");
    reveal_strlit("phx");
    reveal_strlit("px");
    reveal_strlit("cm");
    reveal_strlit("mm");
    reveal_strlit("in");
    reveal_strlit("pt");
    reveal_strlit("rem");
    reveal_strlit("s");
    reveal_strlit("ms");
    reveal_strlit("deg");
    reveal_strlit("grad");
    reveal_strlit("turn");
    reveal_strlit("rad");
    assert(unit_name(Unit::Unitless).len() == 0);
    assert(unit_name(Unit::Percent)[0] == '%');
    assert(unit_name(Unit::Phx).len() == 3 && unit_name(Unit::Phx)[1] == 'h');
    assert(unit_name(Unit::Px) =~= seq!['p', 'x']);
    assert(unit_name(Unit::Cm) =~= seq!['c', 'm']);
    assert(unit_name(Unit::Mm) =~= seq!['m', 'm']);
    assert(unit_name(Unit::In) =~= seq!['i', 'n']);
    assert(unit_name(Unit::Pt) =~= seq!['p', 't']);
    assert(unit_name(Unit::Rem) =~= seq!['r', 'e', 'm']);
    assert(unit_name(Unit::S).len() == 1);
    assert(unit_name(Unit::Ms) =~= seq!['m', 's']);
    assert(unit_name(Unit::Deg) =~= seq!['d', 'e', 'g']);
    assert(unit_name(Unit::Grad).len() == 4 && unit_name(Unit::Grad)[0] == 'g');
    assert(unit_name(Unit::Turn).len() == 4 && unit_name(Unit::Turn)[0] == 't');
    assert(unit_name(Unit::Rad) =~= seq!['r', 'a', 'd']);
}

fn is_name_of(name: &String, unit: Unit) -> (r: bool)
    ensures
        r == (name@ == unit_name(unit)),
{
    *name == String::from_str(unit.name())
}

/// Finds the unit of a name.
pub fn unit_from_name(name: &String) -> (r: Option<Unit>)
    ensures
        r == unit_named(name@),
{
    if is_name_of(name, Unit::Unitless) {
        Some(Unit::Unitless)
    } else if is_name_of(name, Unit::Percent) {
        Some(Unit::Percent)
    } else if is_name_of(name, Unit::Phx) {
        Some(Unit::Phx)
    } else if is_name_of(name, Unit::Px) {
        Some(Unit::Px)
    } else if is_name_of(name, Unit::Cm) {
        Some(Unit::Cm)
    } else if is_name_of(name, Unit::Mm) {
        Some(Unit::Mm)
    } else if is_name_of(name, Unit::In) {
        Some(Unit::In)
    } else if is_name_of(name, Unit::Pt) {
        Some(Unit::Pt)
    } else if is_name_of(name, Unit::Rem) {
        Some(Unit::Rem)
    } else if is_name_of(name, Unit::S) {
        Some(Unit::S)
    } else if is_name_of(name, Unit::Ms) {
        Some(Unit::Ms)
    } else if is_name_of(name, Unit::Deg) {
        Some(Unit::Deg)
    } else if is_name_of(name, Unit::Grad) {
        Some(Unit::Grad)
    } else if is_name_of(name, Unit::Turn) {
        Some(Unit::Turn)
    } else if is_name_of(name, Unit::Rad) {
        Some(Unit::Rad)
    } else {
        None
    }
}

/// The number literal of a bit pattern and the name of a unit; nothing
/// where no unit has the name.
pub open spec fn number_literal_of_parts(bits: u64, unit: Seq<char>) -> Option<NumberLiteral> {
    match unit_named(unit) {
        Some(unit) => Some(NumberLiteral { value: Number { bits }, unit }),
        None => None,
    }
}

/// Makes the number literal of a bit pattern and the name of a unit.
pub fn number_literal(bits: u64, unit: &String) -> (r: Option<NumberLiteral>)
    ensures
        r == number_literal_of_parts(bits, unit@),
{
    match unit_from_name(unit) {
        Some(unit) => Some(NumberLiteral { value: Number::from_bits(bits), unit }),
        None => None,
    }
}

/// The number literal that a text is, where it is one.
pub open spec fn number_literal_read(text: Seq<char>) -> Option<NumberLiteral> {
    match number_literal_value(text) {
        Some((bits, unit)) => number_literal_of_parts(bits, unit),
        None => None,
    }
}

/// Reads a number literal.
pub fn read_number_literal(text: &str) -> (r: Option<NumberLiteral>)
    ensures
        r == number_literal_read(text@),
{
    match parse_number_literal(text) {
        Some((bits, unit)) => number_literal(bits, &unit),
        None => None,
    }
}

/// The colour that a text is, where it is a colour literal.
pub open spec fn color_read(text: Seq<char>) -> Option<Color> {
    match color_literal_value(text) {
        Some(argb) => Some(Color { argb }),
        None => None,
    }
}

/// Reads a colour literal.
pub fn string_to_color(text: &str) -> (r: Option<Color>)
    ensures
        r == color_read(text@),
{
    match parse_color_literal(text) {
        Some(argb) => Some(Color::from_argb_encoded(argb)),
        None => None,
    }
}

/// The text of an optional string literal token, where there is a token
/// and it is well formed.
pub open spec fn token_read(token: Option<String>) -> Option<Seq<char>> {
    match token {
        Some(text) => unescaped_string(text@),
        None => None,
    }
}

fn read_token(token: &Option<String>) -> (r: Option<String>)
    ensures
        r.deep_view() == token_read(*token),
{
    match token {
        Some(text) => unescape_string(text.as_str()),
        None => None,
    }
}

/// A translation marker with its string literals read.
pub open spec fn translation_read(tr: AtTr) -> TranslationModel {
    TranslationModel {
        text: token_read(tr.text),
        context: token_read(tr.context),
        plural: token_read(tr.plural),
        plural_expression: tr.plural_expression.deep_view(),
        argument_count: tr.argument_count,
    }
}

/// An expression with its literals read.
pub open spec fn read(node: Expression) -> ExpressionModel
    decreases node,
{
    match node {
        Expression::Unary { operator, operand } => ExpressionModel::Unary {
            operator,
            operand: Box::new(read(*operand)),
        },
        Expression::NumberLiteral { text } => ExpressionModel::NumberLiteral(
            number_literal_read(text@),
        ),
        Expression::ColorLiteral { text } => ExpressionModel::ColorLiteral {
            text: text@,
            color: color_read(text@),
        },
        Expression::StringLiteral { text } => ExpressionModel::StringLiteral(
            unescaped_string(text@),
        ),
        Expression::QualifiedName { text, name } => ExpressionModel::QualifiedName {
            text: text@,
            name: name@,
        },
        Expression::AtTr(tr) => ExpressionModel::Translation(translation_read(tr)),
        Expression::Other => ExpressionModel::Other,
    }
}

/// An optional expression with its literals read.
pub open spec fn read_optional(node: Option<Expression>) -> Option<ExpressionModel> {
    match node {
        Some(node) => Some(read(node)),
        None => None,
    }
}

/// Reads the literals of an expression.
pub fn read_expression(node: &Expression) -> (r: ParsedExpression)
    ensures
        r.deep_view() == read(*node),
    decreases *node,
{
    match node {
        Expression::Unary { operator, operand } => ParsedExpression::Unary {
            operator: *operator,
            operand: Box::new(read_expression(operand)),
        },
        Expression::NumberLiteral { text } => ParsedExpression::NumberLiteral(
            read_number_literal(text.as_str()),
        ),
        Expression::ColorLiteral { text } => ParsedExpression::ColorLiteral {
            text: text.clone(),
            color: string_to_color(text.as_str()),
        },
        Expression::StringLiteral { text } => ParsedExpression::StringLiteral(
            unescape_string(text.as_str()),
        ),
        Expression::QualifiedName { text, name } => ParsedExpression::QualifiedName {
            text: text.clone(),
            name: name.clone(),
        },
        Expression::AtTr(tr) => ParsedExpression::Translation(
            Translation {
                text: read_token(&tr.text),
                context: read_token(&tr.context),
                plural: read_token(&tr.plural),
                plural_expression: match &tr.plural_expression {
                    Some(name) => Some(name.clone()),
                    None => None,
                },
                argument_count: tr.argument_count,
            },
        ),
        Expression::Other => ParsedExpression::Other,
    }
}

/// Reads the literals of an optional expression.
pub fn read_optional_expression(node: &Option<Expression>) -> (r: Option<ParsedExpression>)
    ensures
        r.deep_view() == read_optional(*node),
{
    match node {
        Some(node) => Some(read_expression(node)),
        None => None,
    }
}

} // verus!
