//! Operator categories the printer distinguishes, their lexemes, and the
//! precedence order used for minimal parenthesization.

use vstd::prelude::*;

verus! {

#[derive(Clone, Copy, PartialEq, Eq, Structural, Debug)]
pub enum BinaryOperator {
    Addition,
    Subtraction,
    Multiplication,
    Division,
    GreaterThan,
    LessThan,
    In,
}

#[derive(Clone, Copy, PartialEq, Eq, Structural, Debug)]
pub enum UnaryOperator {
    UnaryPlus,
    UnaryNegation,
    LogicalNot,
}

#[derive(Clone, Copy, PartialEq, Eq, Structural, Debug)]
pub enum UpdateOperator {
    Increment,
    Decrement,
}

/// The last-emitted-operator memory kept by the printer for token-adjacency
/// disambiguation.
#[derive(Clone, Copy, PartialEq, Eq, Structural, Debug)]
pub enum Operator {
    Binary(BinaryOperator),
    Unary(UnaryOperator),
    Update(UpdateOperator),
}

/// Lexeme of a binary operator.
pub open spec fn binary_op_text(op: BinaryOperator) -> Seq<char> {
    match op {
        BinaryOperator::Addition => seq!['+'],
        BinaryOperator::Subtraction => seq!['-'],
        BinaryOperator::Multiplication => seq!['*'],
        BinaryOperator::Division => seq!['/'],
        BinaryOperator::GreaterThan => seq!['>'],
        BinaryOperator::LessThan => seq!['<'],
        BinaryOperator::In => seq!['i', 'n'],
    }
}

/// Lexeme of a unary operator.
pub open spec fn unary_op_text(op: UnaryOperator) -> Seq<char> {
    match op {
        UnaryOperator::UnaryPlus => seq!['+'],
        UnaryOperator::UnaryNegation => seq!['-'],
        UnaryOperator::LogicalNot => seq!['!'],
    }
}

/// Lexeme of an update operator.
pub open spec fn update_op_text(op: UpdateOperator) -> Seq<char> {
    match op {
        UpdateOperator::Increment => seq!['+', '+'],
        UpdateOperator::Decrement => seq!['-', '-'],
    }
}

/// Precedence level of a binary operator; higher binds tighter.
pub open spec fn binary_precedence(op: BinaryOperator) -> u8 {
    match op {
        BinaryOperator::In => 10u8,
        BinaryOperator::GreaterThan => 10u8,
        BinaryOperator::LessThan => 10u8,
        BinaryOperator::Addition => 12u8,
        BinaryOperator::Subtraction => 12u8,
        BinaryOperator::Multiplication => 13u8,
        BinaryOperator::Division => 13u8,
    }
}

/// Precedence of every prefix unary or prefix update expression.
pub open spec fn unary_precedence() -> u8 {
    15u8
}

/// Precedence of a postfix update expression.
pub open spec fn postfix_precedence() -> u8 {
    16u8
}

/// Precedence of a call expression.
pub open spec fn call_precedence() -> u8 {
    18u8
}

/// The loosest surrounding precedence: nothing is parenthesized under it.
pub open spec fn lowest_precedence() -> u8 {
    0u8
}

/// Runtime precedence of a binary operator, equal to `binary_precedence`.
pub fn binary_precedence_exec(op: BinaryOperator) -> (p: u8)
    ensures
        p == binary_precedence(op),
{
    match op {
        BinaryOperator::In => 10,
        BinaryOperator::GreaterThan => 10,
        BinaryOperator::LessThan => 10,
        BinaryOperator::Addition => 12,
        BinaryOperator::Subtraction => 12,
        BinaryOperator::Multiplication => 13,
        BinaryOperator::Division => 13,
    }
}

} // verus!
