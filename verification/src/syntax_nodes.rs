//! Expressions as the parser presents them: the shape of the outermost
//! node of an expression, and the source text of its tokens.

use vstd::prelude::*;

verus! {

/// The operator of a unary expression.
#[derive(Clone, Copy, Debug, PartialEq, Eq, Structural)]
pub enum UnaryOperator {
    /// `-`
    Minus,
    /// `+`
    Plus,
    /// Any other operator, such as `!`.
    Other,
}

/// A translation marker, `@tr(...)`.
#[derive(Debug)]
pub struct AtTr {
    /// The string literal to translate, as it is written, where the marker
    /// holds one.
    pub text: Option<String>,
    /// The string literal of the translation context, where one is given.
    pub context: Option<String>,
    /// The string literal of the plural form, where one is given.
    pub plural: Option<String>,
    /// The expression that counts for the plural, where it is a bare
    /// qualified name: its identifiers, joined by dots.
    pub plural_expression: Option<String>,
    /// How many arguments the marker interpolates into its text.
    pub argument_count: usize,
}

/// An expression.
#[derive(Debug)]
pub enum Expression {
    /// A unary operator and its operand.
    Unary { operator: UnaryOperator, operand: Box<Expression> },
    /// A number literal, as it is written.
    NumberLiteral { text: String },
    /// A colour literal, as it is written.
    ColorLiteral { text: String },
    /// A string literal, as it is written, quotes and escapes included.
    StringLiteral { text: String },
    /// A qualified name: its source text as written, and its identifiers
    /// joined by dots.
    QualifiedName { text: String, name: String },
    /// A translation marker.
    AtTr(AtTr),
    /// Any other expression.
    Other,
}

} // verus!
