//! A source-text generator for an already-parsed script tree: walks the tree
//! and emits valid, re-parseable source text, either human-readable (pretty)
//! or byte-minimal (minified).

mod annotation_comment;
mod ast;
mod codegen;
mod comments;
mod context;
mod gen;
mod laws;
mod operator;
mod quote;

pub use annotation_comment::{
    annotation_patterns, ascii_whitespace, contains_seq, gen_comment, gen_comment_s,
    get_leading_annotate_comment, is_annotation_comment, leading_annotate_comment_s, print_comment,
    print_comment_s,
};
pub use ast::{
    inner_expression_s, is_typescript_syntax, variable_kind_text, Declaration, Directive,
    Expression, Program, Statement, VariableDeclarationKind, VariableDeclarator,
};
pub use codegen::{
    adjacency_pair, app_code, ascii_identifier_part, identifier_part_char, move_comment_s,
    space_before_operator_s, take_moved_s, Codegen, CodegenOptions, CodegenState, Separator,
};
pub use comments::{
    comment_in_source, leading_comment_of, wf_comments, Comment, CommentGenRelated, CommentKind,
    CommentsModel,
};
pub use context::Context;
pub use gen::{expr_precedence, gen_expr_s, gen_stmt_s, printer_wf, program_s, stmt_skipped};
pub use laws::{
    lemma_adjacency_safety, lemma_asi_block, lemma_asi_block_general,
    lemma_asi_consecutive_statements, lemma_mode_helpers_size, lemma_plus_then_unary_plus,
    lemma_postfix_decrement_then_gt, lemma_relocation_exclusive, same_flags,
};
pub use operator::{BinaryOperator, Operator, UnaryOperator, UpdateOperator};
pub use quote::{choose_quote, chosen_quote, count_char, escape_with};
