//! Laws the printer obeys, stated over the pure transition functions and
//! proved once and for all: the token-adjacency guard never lets an ambiguous
//! operator pair touch, minified blocks are safe under automatic semicolon
//! insertion, and a relocated comment prints at its target position only.

use vstd::prelude::*;
use crate::ast::{Expression, Statement, VariableDeclarator, Declaration};
use crate::codegen::{
    adjacency_pair, app_code, indent_s, move_comment_s, print_s, print_indent_s, dedent_s,
    semicolon_after_statement_s, semicolon_if_needed_s, soft_newline_s, space_before_operator_s, take_moved_s, CodegenState,
};
use crate::comments::Comment;
use crate::context::Context;
use crate::annotation_comment::{gen_comment_s, leading_annotate_comment_s};
use crate::gen::{
    binary_operator_s, block1_s, gen_args_upto_s, gen_declaration_s,
    gen_declarator_s, gen_declarators_upto_s, gen_expr_s, gen_stmt_s, gen_stmts_upto_s,
    members_upto_s, update_postfix_s,
};
use crate::operator::{lowest_precedence, BinaryOperator, Operator, UpdateOperator};
use crate::codegen::Separator;

verus! {

/// Token-adjacency safety: in minified mode, whenever the previously emitted
/// operator ends exactly at the buffer's end and the coming operator forms an
/// ambiguous pair with it, the guard emits exactly one space — the two
/// lexemes never touch. When anything was printed in between, it emits
/// nothing.
pub proof fn lemma_adjacency_safety(st: CodegenState, prev: Operator, next: Operator)
    requires
        st.minify,
    ensures
        st.prev_op == Some(prev) && st.prev_op_end == st.code.len() && adjacency_pair(prev, next)
            ==> space_before_operator_s(st, next).code == st.code + seq![' '],
        st.prev_op_end != st.code.len() ==> space_before_operator_s(st, next) == st,
{
}

/// A concrete instance of adjacency safety across the emitters themselves:
/// a postfix `--` followed by the binary `>` token is printed as `-- >`,
/// never as the single token `-->`.
pub proof fn lemma_postfix_decrement_then_gt(st: CodegenState)
    requires
        st.minify,
    ensures
        ({
            let st1 = update_postfix_s(st, UpdateOperator::Decrement);
            let st2 = binary_operator_s(st1, BinaryOperator::GreaterThan);
            st2.code == st1.code + seq![' ', '>'] && st1.code == st.code + seq!['-', '-']
        }),
{
    let st1 = update_postfix_s(st, UpdateOperator::Decrement);
    let st2 = binary_operator_s(st1, BinaryOperator::GreaterThan);
    assert(st1.prev_op_end == st1.code.len());
    assert(st2.code =~= st1.code + seq![' ', '>']);
}

/// The other concrete adjacency instance: a binary `+` immediately followed
/// by a unary `+` is printed as `+ +`, never as the single token `++`.
pub proof fn lemma_plus_then_unary_plus(st: CodegenState)
    requires
        st.minify,
    ensures
        ({
            let st1 = binary_operator_s(st, BinaryOperator::Addition);
            let st2 = crate::gen::unary_operator_s(st1, crate::operator::UnaryOperator::UnaryPlus);
            st2.code == st1.code + seq![' ', '+']
        }),
{
    let st1 = binary_operator_s(st, BinaryOperator::Addition);
    let st2 = crate::gen::unary_operator_s(st1, crate::operator::UnaryOperator::UnaryPlus);
    assert(st1.prev_op_end == st1.code.len());
    assert(st2.code =~= st1.code + seq![' ', '+']);
}

/// The three mode/configuration flags never change during printing.
pub open spec fn same_flags(a: CodegenState, b: CodegenState) -> bool {
    &&& a.minify == b.minify
    &&& a.enable_typescript == b.enable_typescript
    &&& a.preserve_annotate_comments == b.preserve_annotate_comments
}

pub proof fn lemma_gen_expr_flags(e: Expression, prec: u8, ctx: Context, st: CodegenState)
    ensures
        same_flags(st, gen_expr_s(e, prec, ctx, st)),
    decreases e, 0nat,
{
    match e {
        Expression::ParenthesizedExpression { expression } => {
            lemma_gen_expr_flags(
                *expression,
                lowest_precedence(),
                Context { forbid_in: false },
                print_s(st, '('),
            );
        },
        Expression::BinaryExpression { operator, left, right } => {
            let wrap = crate::operator::binary_precedence(operator) < prec || (ctx.forbid_in
                && operator == BinaryOperator::In);
            let ctx2 = if wrap {
                Context { forbid_in: false }
            } else {
                ctx
            };
            let st0 = if wrap {
                print_s(st, '(')
            } else {
                st
            };
            lemma_gen_expr_flags(*left, crate::operator::binary_precedence(operator), ctx2, st0);
            let st1 = gen_expr_s(*left, crate::operator::binary_precedence(operator), ctx2, st0);
            let st3 = crate::codegen::soft_space_s(binary_operator_s(st1, operator));
            lemma_gen_expr_flags(
                *right,
                (crate::operator::binary_precedence(operator) + 1) as u8,
                ctx2,
                st3,
            );
        },
        Expression::UnaryExpression { operator, argument } => {
            let st0 = if crate::operator::unary_precedence() < prec {
                print_s(st, '(')
            } else {
                st
            };
            lemma_gen_expr_flags(
                *argument,
                crate::operator::unary_precedence(),
                ctx,
                crate::gen::unary_operator_s(st0, operator),
            );
        },
        Expression::UpdateExpression { operator, prefix, argument } => {
            if prefix {
                let st0 = if crate::operator::unary_precedence() < prec {
                    print_s(st, '(')
                } else {
                    st
                };
                lemma_gen_expr_flags(
                    *argument,
                    crate::operator::unary_precedence(),
                    ctx,
                    crate::gen::update_prefix_s(st0, operator),
                );
            } else {
                let st0 = if crate::operator::postfix_precedence() < prec {
                    print_s(st, '(')
                } else {
                    st
                };
                lemma_gen_expr_flags(*argument, crate::operator::postfix_precedence(), ctx, st0);
            }
        },
        Expression::CallExpression { span_start, callee, arguments } => {
            let st0 = if crate::operator::call_precedence() < prec {
                print_s(st, '(')
            } else {
                st
            };
            let st1 = gen_comment_s(st0, span_start);
            lemma_gen_expr_flags(*callee, crate::operator::call_precedence(), ctx, st1);
            let st2 = gen_expr_s(*callee, crate::operator::call_precedence(), ctx, st1);
            lemma_gen_args_flags(
                arguments@,
                arguments@.len() as int,
                2u8,
                Context { forbid_in: false },
                print_s(st2, '('),
            );
        },
        _ => {},
    }
}

pub proof fn lemma_gen_args_flags(
    args: Seq<Expression>,
    n: int,
    prec: u8,
    ctx: Context,
    st: CodegenState,
)
    ensures
        same_flags(st, gen_args_upto_s(args, n, prec, ctx, st)),
    decreases args, n,
{
    if 0 < n <= args.len() {
        lemma_gen_args_flags(args, n - 1, prec, ctx, st);
        let stp = gen_args_upto_s(args, n - 1, prec, ctx, st);
        let stc = if n == 1 {
            stp
        } else {
            print_s(stp, ',')
        };
        lemma_gen_expr_flags(args[n - 1], prec, ctx, stc);
    }
}

pub proof fn lemma_members_flags(ms: Seq<String>, n: int, sep: Separator, st: CodegenState)
    ensures
        same_flags(st, members_upto_s(ms, n, sep, st)),
    decreases n,
{
    if n > 0 {
        lemma_members_flags(ms, n - 1, sep, st);
    }
}

pub proof fn lemma_gen_declarator_flags(dd: VariableDeclarator, ctx: Context, st: CodegenState)
    ensures
        same_flags(st, gen_declarator_s(dd, ctx, st)),
    decreases dd, 0nat,
{
    let st1 = gen_comment_s(st, dd.span_start);
    let st2 = app_code(crate::codegen::space_before_identifier_s(st1), dd.id@);
    match dd.init {
        None => {},
        Some(e) => {
            lemma_gen_expr_flags(
                e,
                2u8,
                ctx,
                crate::codegen::soft_space_s(print_s(crate::codegen::soft_space_s(st2), '=')),
            );
        },
    }
}

pub proof fn lemma_gen_declarators_flags(
    ds: Seq<VariableDeclarator>,
    n: int,
    ctx: Context,
    st: CodegenState,
)
    ensures
        same_flags(st, gen_declarators_upto_s(ds, n, ctx, st)),
    decreases ds, n,
{
    if 0 < n <= ds.len() {
        lemma_gen_declarators_flags(ds, n - 1, ctx, st);
        let stp = gen_declarators_upto_s(ds, n - 1, ctx, st);
        let stc = if n == 1 {
            stp
        } else {
            crate::codegen::soft_space_s(print_s(stp, ','))
        };
        lemma_gen_declarator_flags(ds[n - 1], ctx, stc);
    }
}

pub proof fn lemma_gen_declaration_flags(d: Declaration, ctx: Context, st: CodegenState)
    ensures
        same_flags(st, gen_declaration_s(d, ctx, st)),
    decreases d, 1nat,
{
    match d {
        Declaration::VariableDeclaration { span_start, kind, declarations } => {
            let st1 = if st.preserve_annotate_comments && declarations@.len() > 0 {
                match leading_annotate_comment_s(st, span_start) {
                    Some(pair) => move_comment_s(st, declarations@[0].span_start, pair),
                    None => st,
                }
            } else {
                st
            };
            let st2 = app_code(
                crate::codegen::space_before_identifier_s(st1),
                crate::ast::variable_kind_text(kind),
            );
            lemma_gen_declarators_flags(declarations@, declarations@.len() as int, ctx, st2);
        },
        Declaration::TSTypeAliasDeclaration { .. } => {},
        Declaration::TSEnumDeclaration { name, members } => {
            let st1 = app_code(
                crate::codegen::space_before_identifier_s(st),
                seq!['e', 'n', 'u', 'm'],
            );
            let st2 = app_code(crate::codegen::space_before_identifier_s(st1), name@);
            let st3 = print_s(crate::codegen::soft_space_s(st2), '{');
            lemma_members_flags(members@, members@.len() as int, Separator::Comma, st3);
        },
    }
}

pub proof fn lemma_gen_stmt_flags(s: Statement, ctx: Context, st: CodegenState)
    ensures
        same_flags(st, gen_stmt_s(s, ctx, st)),
    decreases s, 2nat,
{
    match s {
        Statement::ExpressionStatement { span_start, expression } => {
            let st1 = print_indent_s(st);
            let st2 = CodegenState { start_of_stmt: st1.code.len() as int, ..st1 };
            lemma_gen_expr_flags(expression, lowest_precedence(), ctx, st2);
        },
        Statement::BlockStatement { body } => {
            lemma_block1_flags(body@, ctx, print_indent_s(st));
        },
        Statement::Declaration { declaration } => {
            lemma_gen_declaration_flags(declaration, ctx, print_indent_s(st));
        },
    }
}

pub proof fn lemma_gen_stmts_flags(
    stmts: Seq<Statement>,
    n: int,
    semicolon_first: bool,
    ctx: Context,
    st: CodegenState,
)
    ensures
        same_flags(st, gen_stmts_upto_s(stmts, n, semicolon_first, ctx, st)),
    decreases stmts, n,
{
    if 0 < n <= stmts.len() {
        lemma_gen_stmts_flags(stmts, n - 1, semicolon_first, ctx, st);
        let stp = gen_stmts_upto_s(stmts, n - 1, semicolon_first, ctx, st);
        if !crate::gen::stmt_skipped(stmts[n - 1], stp.enable_typescript) {
            if semicolon_first {
                lemma_gen_stmt_flags(stmts[n - 1], ctx, semicolon_if_needed_s(stp));
            } else {
                lemma_gen_stmt_flags(stmts[n - 1], ctx, stp);
            }
        }
    }
}

pub proof fn lemma_block1_flags(body: Seq<Statement>, ctx: Context, st: CodegenState)
    ensures
        same_flags(st, block1_s(body, ctx, st)),
    decreases body, body.len() + 1,
{
    let st1 = indent_s(soft_newline_s(print_s(st, '{')));
    lemma_gen_stmts_flags(body, body.len() as int, true, ctx, st1);
}

/// Automatic-semicolon-insertion safety for a minified block of two
/// expression statements: exactly one `;` separates the two statements, the
/// terminator owed by the second is never flushed, and the closing `}`
/// follows the second statement's last token directly — no `;` is emitted
/// before the brace.
#[verifier::rlimit(100)]
pub proof fn lemma_asi_block(
    e1: Expression,
    e2: Expression,
    sp1: u32,
    sp2: u32,
    ctx: Context,
    st: CodegenState,
)
    requires
        st.minify,
        !st.needs_semicolon,
    ensures
        ({
            let body = seq![
                Statement::ExpressionStatement { span_start: sp1, expression: e1 },
                Statement::ExpressionStatement { span_start: sp2, expression: e2 },
            ];
            let r = block1_s(body, ctx, st);
            let stA = gen_stmt_s(body[0], ctx, print_s(st, '{'));
            let stB = gen_stmt_s(body[1], ctx, semicolon_if_needed_s(stA));
            &&& stA.needs_semicolon
            &&& semicolon_if_needed_s(stA).code == stA.code + seq![';']
            &&& stB.needs_semicolon
            &&& r.code == stB.code + seq!['}']
            &&& !r.needs_semicolon
        }),
{
    let body = seq![
        Statement::ExpressionStatement { span_start: sp1, expression: e1 },
        Statement::ExpressionStatement { span_start: sp2, expression: e2 },
    ];
    reveal_with_fuel(gen_stmts_upto_s, 4);
    let st0 = print_s(st, '{');
    assert(indent_s(soft_newline_s(st0)) == st0);
    assert(semicolon_if_needed_s(st0) == st0);
    lemma_gen_stmt_flags(body[0], ctx, st0);
    let stA = gen_stmt_s(body[0], ctx, st0);
    assert(gen_stmts_upto_s(body, 1, true, ctx, st0) == stA);
    lemma_gen_stmt_flags(body[1], ctx, semicolon_if_needed_s(stA));
    let stB = gen_stmt_s(body[1], ctx, semicolon_if_needed_s(stA));
    assert(gen_stmts_upto_s(body, 2, true, ctx, st0) == stB);
    assert(print_indent_s(dedent_s(stB)) == stB);
    assert(block1_s(body, ctx, st).code == stB.code + seq!['}']);
}

/// Automatic-semicolon-insertion safety for any minified block body: the
/// closing `}` is appended directly to the statement list's output — the
/// terminator owed by the last statement is dropped, never flushed before the
/// brace — and no terminator stays owed past the block.
pub proof fn lemma_asi_block_general(body: Seq<Statement>, ctx: Context, st: CodegenState)
    requires
        st.minify,
    ensures
        ({
            let stb = gen_stmts_upto_s(body, body.len() as int, true, ctx, print_s(st, '{'));
            &&& block1_s(body, ctx, st).code == stb.code + seq!['}']
            &&& !block1_s(body, ctx, st).needs_semicolon
        }),
{
    let st0 = print_s(st, '{');
    assert(indent_s(soft_newline_s(st0)) == st0);
    lemma_gen_stmts_flags(body, body.len() as int, true, ctx, st0);
    let stb = gen_stmts_upto_s(body, body.len() as int, true, ctx, st0);
    assert(print_indent_s(dedent_s(stb)) == stb);
}

/// Exactly one terminator between consecutive minified statements, at any
/// position of a list printed with semicolon-first ordering: when the
/// statement just printed and the next one are both expression statements,
/// the terminator owed by the first is flushed as a single `;` immediately
/// before the next statement's output — never zero times, never twice.
pub proof fn lemma_asi_consecutive_statements(
    stmts: Seq<Statement>,
    i: int,
    ctx: Context,
    st: CodegenState,
)
    requires
        st.minify,
        0 <= i,
        i + 1 < stmts.len(),
        stmts[i] is ExpressionStatement,
        stmts[i + 1] is ExpressionStatement,
    ensures
        ({
            let st_a = gen_stmts_upto_s(stmts, i + 1, true, ctx, st);
            let st_b = gen_stmts_upto_s(stmts, i + 2, true, ctx, st);
            &&& st_a.needs_semicolon
            &&& semicolon_if_needed_s(st_a).code == st_a.code + seq![';']
            &&& st_b == gen_stmt_s(stmts[i + 1], ctx, semicolon_if_needed_s(st_a))
        }),
{
    reveal_with_fuel(gen_stmts_upto_s, 4);
    lemma_gen_stmts_flags(stmts, i, true, ctx, st);
    let stp = gen_stmts_upto_s(stmts, i, true, ctx, st);
    let stf = semicolon_if_needed_s(stp);
    let st_a = gen_stmts_upto_s(stmts, i + 1, true, ctx, st);
    assert(st_a == gen_stmt_s(stmts[i], ctx, stf));
    match stmts[i] {
        Statement::ExpressionStatement { span_start, expression } => {
            let st1 = print_indent_s(stf);
            let st2 = CodegenState { start_of_stmt: st1.code.len() as int, ..st1 };
            lemma_gen_expr_flags(expression, lowest_precedence(), ctx, st2);
            assert(st_a == semicolon_after_statement_s(
                gen_expr_s(expression, lowest_precedence(), ctx, st2),
            ));
            assert(st_a.needs_semicolon);
        },
        _ => {},
    }
    assert(semicolon_if_needed_s(st_a).code =~= st_a.code + seq![';']);
    let st_b = gen_stmts_upto_s(stmts, i + 2, true, ctx, st);
    assert(st_b == gen_stmt_s(stmts[i + 1], ctx, semicolon_if_needed_s(st_a)));
}

/// Comment-relocation exclusivity: once a comment is registered as relocated
/// to a node position, taking it at that position consumes the registration
/// (a second take finds nothing), and the comment never again qualifies as a
/// natural leading annotation comment at any position — so it is printed at
/// most once, at its target.
pub proof fn lemma_relocation_exclusive(st: CodegenState, position: u32, info: (u32, Comment))
    requires
        st.comments is Some,
    ensures
        ({
            let st1 = move_comment_s(st, position, info);
            &&& take_moved_s(st1, position).1 == Some(info)
            &&& take_moved_s(take_moved_s(st1, position).0, position).1 is None
            &&& forall|n: u32| leading_annotate_comment_s(st1, n) != Some(info)
        }),
{
    let st1 = move_comment_s(st, position, info);
    let cm1 = st1.comments->0;
    assert(cm1.relocated.contains(info.0)) by {
        assert(cm1.relocated.last() == info.0);
    }
    assert(cm1.moved.contains_key(position));
    assert forall|n: u32| leading_annotate_comment_s(st1, n) != Some(info) by {
        match crate::comments::leading_comment_of(cm1.trivials, n) {
            Some(pair) => {
                if pair == info {
                    assert(cm1.relocated.contains(pair.0));
                }
            },
            None => {},
        }
    }
}


/// One piece of the minified-size bound: every mode-dependent helper emits
/// at most as much in minified mode as in pretty mode — soft spaces and soft
/// newlines vanish, indentation vanishes, and a statement terminator costs at
/// most one character (flushed later or dropped) against two.
pub proof fn lemma_mode_helpers_size(stm: CodegenState, stp: CodegenState)
    requires
        stm.minify,
        !stp.minify,
    ensures
        crate::codegen::soft_space_s(stm).code.len() - stm.code.len() <= crate::codegen::soft_space_s(
            stp,
        ).code.len() - stp.code.len(),
        crate::codegen::soft_newline_s(stm).code.len() - stm.code.len()
            <= crate::codegen::soft_newline_s(stp).code.len() - stp.code.len(),
        crate::codegen::print_indent_s(stm).code.len() == stm.code.len(),
        crate::codegen::semicolon_after_statement_s(stm).code.len() - stm.code.len() + 1
            <= crate::codegen::semicolon_after_statement_s(stp).code.len() - stp.code.len(),
        crate::codegen::semicolon_if_needed_s(stm).code.len() - stm.code.len() <= 1,
{
}

} // verus!
