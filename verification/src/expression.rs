//! Expressions with their literals read, and default values, as far as
//! projection reads them.

use crate::color::Color;
use crate::number::Number;
use crate::syntax_nodes::UnaryOperator;
use crate::units::Unit;
use vstd::prelude::*;

verus! {

/// A number literal: its value and its unit.
#[derive(Clone, Copy, Debug, PartialEq, Eq, Structural)]
pub struct NumberLiteral {
    pub value: Number,
    pub unit: Unit,
}

/// A translation marker with its string literals read.
#[derive(Debug, PartialEq, Eq)]
pub struct Translation {
    /// The text to translate; absent where the marker holds no well-formed
    /// string literal.
    pub text: Option<String>,
    /// The translation context, where a well-formed one is given.
    pub context: Option<String>,
    /// The plural form of the text, where a well-formed one is given.
    pub plural: Option<String>,
    /// The expression that counts for the plural, where it is a bare
    /// qualified name: its identifiers, joined by dots.
    pub plural_expression: Option<String>,
    /// How many arguments the marker interpolates into its text.
    pub argument_count: usize,
}

/// What a translation marker holds.
pub struct TranslationModel {
    pub text: Option<Seq<char>>,
    pub context: Option<Seq<char>>,
    pub plural: Option<Seq<char>>,
    pub plural_expression: Option<Seq<char>>,
    pub argument_count: usize,
}

impl DeepView for Translation {
    type V = TranslationModel;

    open spec fn deep_view(&self) -> TranslationModel {
        TranslationModel {
            text: self.text.deep_view(),
            context: self.context.deep_view(),
            plural: self.plural.deep_view(),
            plural_expression: self.plural_expression.deep_view(),
            argument_count: self.argument_count,
        }
    }
}

/// An expression with its literals read: the shape of its outermost node,
/// with what the literal functions of the language make of its tokens.
#[derive(Debug, PartialEq, Eq)]
pub enum ParsedExpression {
    /// A unary operator and its operand.
    Unary { operator: UnaryOperator, operand: Box<ParsedExpression> },
    /// A number literal; absent where the token is no well-formed number
    /// with a known unit.
    NumberLiteral(Option<NumberLiteral>),
    /// A colour literal: its source text, and its colour where the text is
    /// well formed.
    ColorLiteral { text: String, color: Option<Color> },
    /// A string literal, with its escapes resolved; absent where they are
    /// malformed.
    StringLiteral(Option<String>),
    /// A qualified name: its source text as written, and its identifiers
    /// joined by dots.
    QualifiedName { text: String, name: String },
    /// A translation marker.
    Translation(Translation),
    /// Any other expression.
    Other,
}

/// What an expression with its literals read holds.
pub enum ExpressionModel {
    Unary { operator: UnaryOperator, operand: Box<ExpressionModel> },
    NumberLiteral(Option<NumberLiteral>),
    ColorLiteral { text: Seq<char>, color: Option<Color> },
    StringLiteral(Option<Seq<char>>),
    QualifiedName { text: Seq<char>, name: Seq<char> },
    Translation(TranslationModel),
    Other,
}

/// What an expression with its literals read holds.
pub open spec fn model_of(expression: ParsedExpression) -> ExpressionModel
    decreases expression,
{
    match expression {
        ParsedExpression::Unary { operator, operand } => ExpressionModel::Unary {
            operator,
            operand: Box::new(model_of(*operand)),
        },
        ParsedExpression::NumberLiteral(literal) => ExpressionModel::NumberLiteral(literal),
        ParsedExpression::ColorLiteral { text, color } => ExpressionModel::ColorLiteral {
            text: text@,
            color,
        },
        ParsedExpression::StringLiteral(text) => ExpressionModel::StringLiteral(text.deep_view()),
        ParsedExpression::QualifiedName { text, name } => ExpressionModel::QualifiedName {
            text: text@,
            name: name@,
        },
        ParsedExpression::Translation(tr) => ExpressionModel::Translation(tr.deep_view()),
        ParsedExpression::Other => ExpressionModel::Other,
    }
}

impl DeepView for ParsedExpression {
    type V = ExpressionModel;

    open spec fn deep_view(&self) -> ExpressionModel {
        model_of(*self)
    }
}

/// A default value: the compiled expression that a property is bound to
/// where its element gives it none.
#[derive(Debug)]
pub enum DefaultValue {
    NumberLiteral(NumberLiteral),
    /// A conversion of another value to the property's type.
    Cast(Box<DefaultValue>),
    BoolLiteral(bool),
    StringLiteral(String),
    /// A member of the property's enumeration, by its index.
    EnumerationValue(usize),
    /// Any other expression.
    Other,
}

} // verus!
