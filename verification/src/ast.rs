//! The tree the printer walks: a closed set of tagged node kinds fixed by the
//! grammar. Spans are character offsets into the original source text, used
//! only for comment and annotation lookups.

use vstd::prelude::*;
use crate::operator::{BinaryOperator, UnaryOperator, UpdateOperator};

verus! {

/// A directive-prologue entry, printed verbatim between quotes.
pub struct Directive {
    pub directive: String,
}

/// The root node of a parsed source file.
pub struct Program {
    pub directives: Vec<Directive>,
    pub body: Vec<Statement>,
}

pub enum Statement {
    ExpressionStatement { span_start: u32, expression: Expression },
    BlockStatement { body: Vec<Statement> },
    Declaration { declaration: Declaration },
}

pub enum VariableDeclarationKind {
    Var,
    Let,
    Const,
}

pub struct VariableDeclarator {
    pub span_start: u32,
    pub id: String,
    pub init: Option<Expression>,
}

pub enum Declaration {
    VariableDeclaration {
        span_start: u32,
        kind: VariableDeclarationKind,
        declarations: Vec<VariableDeclarator>,
    },
    TSTypeAliasDeclaration { name: String, annotation: String },
    TSEnumDeclaration { name: String, members: Vec<String> },
}

#[allow(inconsistent_fields)]
pub enum Expression {
    Identifier { name: String },
    StringLiteral { value: String },
    NumericLiteral { raw: String },
    BinaryExpression { operator: BinaryOperator, left: Box<Expression>, right: Box<Expression> },
    UnaryExpression { operator: UnaryOperator, argument: Box<Expression> },
    UpdateExpression { operator: UpdateOperator, prefix: bool, argument: Box<Expression> },
    ParenthesizedExpression { expression: Box<Expression> },
    CallExpression { span_start: u32, callee: Box<Expression>, arguments: Vec<Expression> },
}

/// A declaration that exists only in the typed dialect; such declarations are
/// omitted when typed output is disabled, except enums, which have runtime
/// semantics.
pub open spec fn is_typescript_syntax(d: Declaration) -> bool {
    match d {
        Declaration::VariableDeclaration { .. } => false,
        Declaration::TSTypeAliasDeclaration { .. } => true,
        Declaration::TSEnumDeclaration { .. } => true,
    }
}

/// The expression with any parenthesization stripped.
pub open spec fn inner_expression_s(e: Expression) -> Expression
    decreases e,
{
    match e {
        Expression::ParenthesizedExpression { expression } => inner_expression_s(*expression),
        _ => e,
    }
}

impl Expression {
    /// Strip parenthesized wrappers off this expression.
    pub fn get_inner_expression(&self) -> (r: &Expression)
        ensures
            *r == inner_expression_s(*self),
        decreases *self,
    {
        match self {
            Expression::ParenthesizedExpression { expression } => {
                expression.get_inner_expression()
            },
            _ => self,
        }
    }
}

/// The keyword introducing a variable declaration.
pub open spec fn variable_kind_text(k: VariableDeclarationKind) -> Seq<char> {
    match k {
        VariableDeclarationKind::Var => seq!['v', 'a', 'r'],
        VariableDeclarationKind::Let => seq!['l', 'e', 't'],
        VariableDeclarationKind::Const => seq!['c', 'o', 'n', 's', 't'],
    }
}

} // verus!
