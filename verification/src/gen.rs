//! The node-dispatch contract: every node kind prints its own textual form
//! and recurses over its children in source order, threading the one printer
//! core through the walk. Each executable printing operation is specified
//! against a pure transition function over [`CodegenState`], so the whole
//! emission of a tree is pinned down exactly.

use vstd::prelude::*;
use crate::annotation_comment::{
    gen_comment, gen_comment_s, get_leading_annotate_comment, leading_annotate_comment_s,
};
use crate::ast::{
    inner_expression_s, is_typescript_syntax, variable_kind_text, Declaration, Directive,
    Expression, Program, Statement, VariableDeclarationKind, VariableDeclarator,
};
use crate::codegen::{
    app_code, dedent_s, indent_s, move_comment_s, print_indent_s, print_s, semicolon_after_statement_s,
    semicolon_if_needed_s, set_prev_op_s, soft_newline_s, soft_space_s, space_before_identifier_s,
    space_before_operator_s, wrap_quote_s, Codegen, CodegenState, Separator,
};
use crate::comments::{comment_in_source, lemma_leading_comment_member, wf_comments};
use crate::context::Context;
use crate::operator::{
    binary_op_text, binary_precedence, binary_precedence_exec, call_precedence, lowest_precedence,
    postfix_precedence, unary_op_text, unary_precedence, update_op_text, BinaryOperator, Operator,
    UnaryOperator, UpdateOperator,
};

verus! {

/// The comment metadata attached to the printer, when present, is
/// well-formed: every print pass keeps this.
pub open spec fn printer_wf(st: CodegenState) -> bool {
    match st.comments {
        Some(cm) => wf_comments(cm),
        None => true,
    }
}

/// Own precedence of an expression node: it is parenthesized exactly when
/// this is below the surrounding precedence.
pub open spec fn expr_precedence(e: Expression) -> u8 {
    match e {
        Expression::Identifier { .. } => 20u8,
        Expression::StringLiteral { .. } => 20u8,
        Expression::NumericLiteral { .. } => 20u8,
        Expression::ParenthesizedExpression { .. } => 20u8,
        Expression::BinaryExpression { operator, .. } => binary_precedence(operator),
        Expression::UnaryExpression { .. } => unary_precedence(),
        Expression::UpdateExpression { prefix, .. } => if prefix {
            unary_precedence()
        } else {
            postfix_precedence()
        },
        Expression::CallExpression { .. } => call_precedence(),
    }
}

/// Emission of a binary operator token: `in` prints as an identifier-like
/// token; symbolic operators go through the adjacency guard and are recorded
/// as the last printed operator.
pub open spec fn binary_operator_s(st: CodegenState, op: BinaryOperator) -> CodegenState {
    if op == BinaryOperator::In {
        app_code(space_before_identifier_s(st), seq!['i', 'n'])
    } else {
        set_prev_op_s(
            app_code(space_before_operator_s(st, Operator::Binary(op)), binary_op_text(op)),
            Operator::Binary(op),
        )
    }
}

/// Emission of a prefix unary operator token: in minified mode the adjacency
/// guard may force a space first; the token is recorded as last operator.
pub open spec fn unary_operator_s(st: CodegenState, op: UnaryOperator) -> CodegenState {
    set_prev_op_s(
        app_code(
            if st.minify {
                space_before_operator_s(st, Operator::Unary(op))
            } else {
                st
            },
            unary_op_text(op),
        ),
        Operator::Unary(op),
    )
}

/// Emission of a prefix update operator token.
pub open spec fn update_prefix_s(st: CodegenState, op: UpdateOperator) -> CodegenState {
    set_prev_op_s(
        app_code(
            if st.minify {
                space_before_operator_s(st, Operator::Update(op))
            } else {
                st
            },
            update_op_text(op),
        ),
        Operator::Update(op),
    )
}

/// Emission of a postfix update operator token, glued to its operand.
pub open spec fn update_postfix_s(st: CodegenState, op: UpdateOperator) -> CodegenState {
    set_prev_op_s(app_code(st, update_op_text(op)), Operator::Update(op))
}

/// Transition of printing expression `e` under surrounding precedence
/// `precedence` and flags `ctx`.
pub open spec fn gen_expr_s(e: Expression, precedence: u8, ctx: Context, st: CodegenState) -> CodegenState
    decreases e, 0nat,
{
    match e {
        Expression::Identifier { name } => app_code(space_before_identifier_s(st), name@),
        Expression::NumericLiteral { raw } => app_code(space_before_identifier_s(st), raw@),
        Expression::StringLiteral { value } => wrap_quote_s(st, value@),
        Expression::ParenthesizedExpression { expression } => print_s(
            gen_expr_s(
                *expression,
                lowest_precedence(),
                Context { forbid_in: false },
                print_s(st, '('),
            ),
            ')',
        ),
        Expression::BinaryExpression { operator, left, right } => {
            let wrap = binary_precedence(operator) < precedence || (ctx.forbid_in && operator
                == BinaryOperator::In);
            let ctx2 = if wrap {
                Context { forbid_in: false }
            } else {
                ctx
            };
            let st0 = if wrap {
                print_s(st, '(')
            } else {
                st
            };
            let st1 = gen_expr_s(*left, binary_precedence(operator), ctx2, st0);
            let st2 = binary_operator_s(st1, operator);
            let st3 = soft_space_s(st2);
            let st4 = gen_expr_s(
                *right,
                (binary_precedence(operator) + 1) as u8,
                ctx2,
                st3,
            );
            if wrap {
                print_s(st4, ')')
            } else {
                st4
            }
        },
        Expression::UnaryExpression { operator, argument } => {
            let wrap = unary_precedence() < precedence;
            let st0 = if wrap {
                print_s(st, '(')
            } else {
                st
            };
            let st1 = unary_operator_s(st0, operator);
            let st2 = gen_expr_s(*argument, unary_precedence(), ctx, st1);
            if wrap {
                print_s(st2, ')')
            } else {
                st2
            }
        },
        Expression::UpdateExpression { operator, prefix, argument } => {
            if prefix {
                let wrap = unary_precedence() < precedence;
                let st0 = if wrap {
                    print_s(st, '(')
                } else {
                    st
                };
                let st1 = update_prefix_s(st0, operator);
                let st2 = gen_expr_s(*argument, unary_precedence(), ctx, st1);
                if wrap {
                    print_s(st2, ')')
                } else {
                    st2
                }
            } else {
                let wrap = postfix_precedence() < precedence;
                let st0 = if wrap {
                    print_s(st, '(')
                } else {
                    st
                };
                let st1 = gen_expr_s(*argument, postfix_precedence(), ctx, st0);
                let st2 = update_postfix_s(st1, operator);
                if wrap {
                    print_s(st2, ')')
                } else {
                    st2
                }
            }
        },
        Expression::CallExpression { span_start, callee, arguments } => {
            let wrap = call_precedence() < precedence;
            let st0 = if wrap {
                print_s(st, '(')
            } else {
                st
            };
            let st1 = gen_comment_s(st0, span_start);
            let st2 = gen_expr_s(*callee, call_precedence(), ctx, st1);
            let st3 = print_s(st2, '(');
            let st4 = gen_args_upto_s(
                arguments@,
                arguments@.len() as int,
                2u8,
                Context { forbid_in: false },
                st3,
            );
            let st5 = print_s(st4, ')');
            if wrap {
                print_s(st5, ')')
            } else {
                st5
            }
        },
    }
}

/// Transition of printing the first `n` expressions of a list,
/// comma-separated, each under precedence `prec`.
pub open spec fn gen_args_upto_s(
    args: Seq<Expression>,
    n: int,
    prec: u8,
    ctx: Context,
    st: CodegenState,
) -> CodegenState
    decreases args, n,
{
    if n <= 0 || n > args.len() {
        st
    } else {
        let stp = gen_args_upto_s(args, n - 1, prec, ctx, st);
        let stc = if n == 1 {
            stp
        } else {
            print_s(stp, ',')
        };
        gen_expr_s(args[n - 1], prec, ctx, stc)
    }
}

/// A statement that is dropped from output: a TypeScript-only declaration
/// while typed output is disabled, except an enum.
pub open spec fn stmt_skipped(s: Statement, enable_typescript: bool) -> bool {
    match s {
        Statement::Declaration { declaration } => is_typescript_syntax(declaration)
            && !enable_typescript && !(declaration is TSEnumDeclaration),
        _ => false,
    }
}

/// Transition of printing one statement.
pub open spec fn gen_stmt_s(s: Statement, ctx: Context, st: CodegenState) -> CodegenState
    decreases s, 0nat,
{
    match s {
        Statement::ExpressionStatement { span_start, expression } => {
            let st1 = print_indent_s(st);
            let st2 = CodegenState { start_of_stmt: st1.code.len() as int, ..st1 };
            let st3 = gen_expr_s(expression, lowest_precedence(), ctx, st2);
            semicolon_after_statement_s(st3)
        },
        Statement::BlockStatement { body } => {
            let st1 = print_indent_s(st);
            let st2 = block1_s(body@, ctx, st1);
            soft_newline_s(st2)
        },
        Statement::Declaration { declaration } => gen_declaration_s(
            declaration,
            ctx,
            print_indent_s(st),
        ),
    }
}

/// Transition of printing the first `n` statements of a list: an owed
/// terminator is flushed before each statement (or after it, when
/// `semicolon_first` is false), and disabled typed-dialect declarations are
/// skipped.
pub open spec fn gen_stmts_upto_s(
    stmts: Seq<Statement>,
    n: int,
    semicolon_first: bool,
    ctx: Context,
    st: CodegenState,
) -> CodegenState
    decreases stmts, n,
{
    if n <= 0 || n > stmts.len() {
        st
    } else {
        let stp = gen_stmts_upto_s(stmts, n - 1, semicolon_first, ctx, st);
        let s = stmts[n - 1];
        if stmt_skipped(s, stp.enable_typescript) {
            stp
        } else if semicolon_first {
            gen_stmt_s(s, ctx, semicolon_if_needed_s(stp))
        } else {
            semicolon_if_needed_s(gen_stmt_s(s, ctx, stp))
        }
    }
}

/// Transition of a braced block: `{`, soft newline, indented body with
/// semicolon-first ordering, `}`; no terminator stays owed past the brace.
pub open spec fn block1_s(body: Seq<Statement>, ctx: Context, st: CodegenState) -> CodegenState
    decreases body, body.len() + 1,
{
    let st1 = indent_s(soft_newline_s(print_s(st, '{')));
    let st2 = gen_stmts_upto_s(body, body.len() as int, true, ctx, st1);
    let st3 = print_s(print_indent_s(dedent_s(st2)), '}');
    CodegenState { needs_semicolon: false, ..st3 }
}

/// Transition of printing one variable declarator: its owed comments, its
/// name, then `=` and its initializer if any.
pub open spec fn gen_declarator_s(dd: VariableDeclarator, ctx: Context, st: CodegenState) -> CodegenState
    decreases dd, 0nat,
{
    let st1 = gen_comment_s(st, dd.span_start);
    let st2 = app_code(space_before_identifier_s(st1), dd.id@);
    match dd.init {
        None => st2,
        Some(e) => gen_expr_s(e, 2u8, ctx, soft_space_s(print_s(soft_space_s(st2), '='))),
    }
}

/// Transition of printing the first `n` declarators, comma-and-soft-space
/// separated.
pub open spec fn gen_declarators_upto_s(
    ds: Seq<VariableDeclarator>,
    n: int,
    ctx: Context,
    st: CodegenState,
) -> CodegenState
    decreases ds, n,
{
    if n <= 0 || n > ds.len() {
        st
    } else {
        let stp = gen_declarators_upto_s(ds, n - 1, ctx, st);
        let stc = if n == 1 {
            stp
        } else {
            soft_space_s(print_s(stp, ','))
        };
        gen_declarator_s(ds[n - 1], ctx, stc)
    }
}

/// The separator written after a printed sequence item.
pub open spec fn separator_s(st: CodegenState, sep: Separator) -> CodegenState {
    match sep {
        Separator::Comma => print_s(st, ','),
        Separator::Semicolon => print_s(st, ';'),
        Separator::Nothing => st,
    }
}

/// Transition of printing the first `n` members of an enum body, each as an
/// identifier-like token followed by the separator.
pub open spec fn members_upto_s(ms: Seq<String>, n: int, sep: Separator, st: CodegenState) -> CodegenState
    decreases n,
{
    if n <= 0 {
        st
    } else {
        let stp = members_upto_s(ms, n - 1, sep, st);
        separator_s(app_code(space_before_identifier_s(stp), ms[n - 1]@), sep)
    }
}

/// Transition of printing one declaration, terminator included.
pub open spec fn gen_declaration_s(d: Declaration, ctx: Context, st: CodegenState) -> CodegenState
    decreases d, 1nat,
{
    match d {
        Declaration::VariableDeclaration { span_start, kind, declarations } => {
            let st1 = if st.preserve_annotate_comments && declarations@.len() > 0 {
                match leading_annotate_comment_s(st, span_start) {
                    Some(pair) => move_comment_s(st, declarations@[0].span_start, pair),
                    None => st,
                }
            } else {
                st
            };
            let st2 = app_code(space_before_identifier_s(st1), variable_kind_text(kind));
            let st3 = gen_declarators_upto_s(declarations@, declarations@.len() as int, ctx, st2);
            semicolon_after_statement_s(st3)
        },
        Declaration::TSTypeAliasDeclaration { name, annotation } => {
            let st1 = app_code(space_before_identifier_s(st), seq!['t', 'y', 'p', 'e']);
            let st2 = app_code(space_before_identifier_s(st1), name@);
            let st3 = soft_space_s(print_s(soft_space_s(st2), '='));
            let st4 = app_code(st3, annotation@);
            semicolon_after_statement_s(st4)
        },
        Declaration::TSEnumDeclaration { name, members } => {
            let st1 = app_code(space_before_identifier_s(st), seq!['e', 'n', 'u', 'm']);
            let st2 = app_code(space_before_identifier_s(st1), name@);
            let st3 = print_s(soft_space_s(st2), '{');
            let st4 = members_upto_s(members@, members@.len() as int, Separator::Comma, st3);
            let st5 = print_s(st4, '}');
            soft_newline_s(st5)
        },
    }
}

/// Transition of printing one directive: its text between plain double
/// quotes, with an eager terminator.
pub open spec fn gen_directive_s(dir: Directive, st: CodegenState) -> CodegenState {
    print_s(app_code(print_s(st, '"'), dir.directive@), '"')
}

/// Transition of printing the first `n` directives, each followed by `;`.
pub open spec fn gen_directives_upto_s(dirs: Seq<Directive>, n: int, st: CodegenState) -> CodegenState
    decreases n,
{
    if n <= 0 {
        st
    } else {
        print_s(gen_directive_s(dirs[n - 1], gen_directives_upto_s(dirs, n - 1, st)), ';')
    }
}

/// A statement that would be re-read as a directive if it opened a body: an
/// expression statement whose inner expression is a string literal.
pub open spec fn needs_directive_guard(s: Statement) -> bool {
    match s {
        Statement::ExpressionStatement { expression, .. } => inner_expression_s(
            expression,
        ) is StringLiteral,
        _ => false,
    }
}

/// Transition of printing a directive prologue (when one is supplied) and a
/// statement list. An empty-but-present prologue forces a lone `;` before a
/// leading string-literal expression statement, so it cannot be re-read as a
/// directive.
pub open spec fn print_directives_and_statements_s(
    directives: Option<Seq<Directive>>,
    stmts: Seq<Statement>,
    ctx: Context,
    semicolon_first: bool,
    st: CodegenState,
) -> CodegenState {
    let st1 = match directives {
        None => st,
        Some(dirs) => {
            if dirs.len() == 0 {
                if stmts.len() > 0 && needs_directive_guard(stmts[0]) {
                    print_s(st, ';')
                } else {
                    st
                }
            } else {
                soft_newline_s(gen_directives_upto_s(dirs, dirs.len() as int, st))
            }
        },
    };
    gen_stmts_upto_s(stmts, stmts.len() as int, semicolon_first, ctx, st1)
}

/// Transition of printing a whole program: its directive prologue, then its
/// statements with eager terminator flushing.
pub open spec fn program_s(p: Program, st: CodegenState) -> CodegenState {
    print_directives_and_statements_s(
        Some(p.directives@),
        p.body@,
        Context { forbid_in: false },
        false,
        st,
    )
}


impl Codegen {
    pub(crate) fn print_block_start(&mut self)
        ensures
            final(self)@ == indent_s(soft_newline_s(print_s(old(self)@, '{'))),
    {
        self.print('{');
        self.print_soft_newline();
        self.indent();
    }

    pub(crate) fn print_block_end(&mut self)
        ensures
            final(self)@ == print_s(print_indent_s(dedent_s(old(self)@)), '}'),
    {
        self.dedent();
        self.print_indent();
        self.print('}');
    }

    /// Emit a binary operator token, with its adjacency guard and last-token
    /// bookkeeping.
    pub(crate) fn print_binary_operator(&mut self, op: BinaryOperator)
        ensures
            final(self)@ == binary_operator_s(old(self)@, op),
    {
        if let BinaryOperator::In = op {
            self.print_space_before_identifier();
            self.print('i');
            self.print('n');
            proof {
                assert(self@ =~~= binary_operator_s(old(self)@, op));
            }
        } else {
            self.print_space_before_operator(Operator::Binary(op));
            match op {
                BinaryOperator::Addition => self.print('+'),
                BinaryOperator::Subtraction => self.print('-'),
                BinaryOperator::Multiplication => self.print('*'),
                BinaryOperator::Division => self.print('/'),
                BinaryOperator::GreaterThan => self.print('>'),
                BinaryOperator::LessThan => self.print('<'),
                BinaryOperator::In => self.print('i'),
            }
            self.set_prev_op(Operator::Binary(op));
            proof {
                assert(self@ =~~= binary_operator_s(old(self)@, op));
            }
        }
    }

    /// Emit a prefix unary operator token.
    pub(crate) fn print_unary_operator(&mut self, op: UnaryOperator)
        ensures
            final(self)@ == unary_operator_s(old(self)@, op),
    {
        if self.minify {
            self.print_space_before_operator(Operator::Unary(op));
        }
        match op {
            UnaryOperator::UnaryPlus => self.print('+'),
            UnaryOperator::UnaryNegation => self.print('-'),
            UnaryOperator::LogicalNot => self.print('!'),
        }
        self.set_prev_op(Operator::Unary(op));
        proof {
            assert(self@ =~~= unary_operator_s(old(self)@, op));
        }
    }

    /// Emit a prefix update operator token.
    pub(crate) fn print_update_prefix(&mut self, op: UpdateOperator)
        ensures
            final(self)@ == update_prefix_s(old(self)@, op),
    {
        if self.minify {
            self.print_space_before_operator(Operator::Update(op));
        }
        match op {
            UpdateOperator::Increment => {
                self.print('+');
                self.print('+');
            },
            UpdateOperator::Decrement => {
                self.print('-');
                self.print('-');
            },
        }
        self.set_prev_op(Operator::Update(op));
        proof {
            assert(self@ =~~= update_prefix_s(old(self)@, op));
        }
    }

    /// Emit a postfix update operator token, glued to its operand.
    pub(crate) fn print_update_postfix(&mut self, op: UpdateOperator)
        ensures
            final(self)@ == update_postfix_s(old(self)@, op),
    {
        match op {
            UpdateOperator::Increment => {
                self.print('+');
                self.print('+');
            },
            UpdateOperator::Decrement => {
                self.print('-');
                self.print('-');
            },
        }
        self.set_prev_op(Operator::Update(op));
        proof {
            assert(self@ =~~= update_postfix_s(old(self)@, op));
        }
    }

    /// Print a comma-separated expression list, each item under `precedence`.
    pub(crate) fn print_expressions(&mut self, items: &Vec<Expression>, precedence: u8, ctx: Context)
        requires
            printer_wf(old(self)@),
        ensures
            final(self)@ == gen_args_upto_s(items@, items@.len() as int, precedence, ctx, old(self)@),
            printer_wf(final(self)@),
        decreases items@, 1nat,
    {
        let mut i: usize = 0;
        while i < items.len()
            invariant
                i <= items@.len(),
                printer_wf(self@),
                self@ == gen_args_upto_s(items@, i as int, precedence, ctx, old(self)@),
            decreases items@.len() - i,
        {
            if i != 0 {
                self.print_comma();
            }
            items[i].gen_expr(self, precedence, ctx);
            i = i + 1;
        }
    }

    /// Print a comma-and-soft-space separated declarator list.
    pub(crate) fn print_list(&mut self, items: &Vec<VariableDeclarator>, ctx: Context)
        requires
            printer_wf(old(self)@),
        ensures
            final(self)@ == gen_declarators_upto_s(items@, items@.len() as int, ctx, old(self)@),
            printer_wf(final(self)@),
        decreases items@, 1nat,
    {
        let mut i: usize = 0;
        while i < items.len()
            invariant
                i <= items@.len(),
                printer_wf(self@),
                self@ == gen_declarators_upto_s(items@, i as int, ctx, old(self)@),
            decreases items@.len() - i,
        {
            if i != 0 {
                self.print_comma();
                self.print_soft_space();
            }
            items[i].gen(self, ctx);
            i = i + 1;
        }
    }

    /// Print a sequence of identifier-like items, `separator` after each one.
    pub(crate) fn print_sequence(&mut self, items: &Vec<String>, separator: Separator)
        requires
            printer_wf(old(self)@),
        ensures
            final(self)@ == members_upto_s(items@, items@.len() as int, separator, old(self)@),
            printer_wf(final(self)@),
    {
        let mut i: usize = 0;
        while i < items.len()
            invariant
                i <= items@.len(),
                printer_wf(self@),
                self@ == members_upto_s(items@, i as int, separator, old(self)@),
            decreases items@.len() - i,
        {
            self.print_space_before_identifier();
            self.print_str(items[i].as_str());
            match separator {
                Separator::Comma => self.print_comma(),
                Separator::Semicolon => self.print_semicolon(),
                Separator::Nothing => {},
            }
            i = i + 1;
        }
    }

    /// Print a brace-wrapped sequence of identifier-like items.
    pub(crate) fn print_block(&mut self, items: &Vec<String>, separator: Separator)
        requires
            printer_wf(old(self)@),
        ensures
            final(self)@ == print_s(
                print_indent_s(
                    dedent_s(
                        members_upto_s(
                            items@,
                            items@.len() as int,
                            separator,
                            indent_s(soft_newline_s(print_s(old(self)@, '{'))),
                        ),
                    ),
                ),
                '}',
            ),
            printer_wf(final(self)@),
    {
        self.print_block_start();
        self.print_sequence(items, separator);
        self.print_block_end();
    }

    /// Print a symbol by its source name. A renaming pass would resolve the
    /// symbol to a shorter name here; without one, the fallback name is
    /// emitted as it stands.
    pub(crate) fn print_symbol(&mut self, fallback: &str)
        ensures
            final(self)@ == app_code(old(self)@, fallback@),
    {
        self.print_str(fallback);
    }

    /// Print a braced statement block; no terminator stays owed past the
    /// closing brace.
    pub(crate) fn print_block1(&mut self, body: &Vec<Statement>, ctx: Context)
        requires
            printer_wf(old(self)@),
        ensures
            final(self)@ == block1_s(body@, ctx, old(self)@),
            printer_wf(final(self)@),
        decreases body@, body@.len() + 2,
    {
        self.print_block_start();
        self.print_directives_and_statements_with_semicolon_order(None, body, ctx, true);
        self.print_block_end();
        self.needs_semicolon = false;
        proof {
            assert(self@ =~~= block1_s(body@, ctx, old(self)@));
        }
    }

    /// Print an optional directive prologue, then a statement list with the
    /// requested terminator ordering, skipping disabled typed-dialect
    /// declarations.
    pub(crate) fn print_directives_and_statements_with_semicolon_order(
        &mut self,
        directives: Option<&Vec<Directive>>,
        statements: &Vec<Statement>,
        ctx: Context,
        print_semicolon_first: bool,
    )
        requires
            printer_wf(old(self)@),
        ensures
            final(self)@ == print_directives_and_statements_s(
                match directives {
                    Some(d) => Some(d@),
                    None => None,
                },
                statements@,
                ctx,
                print_semicolon_first,
                old(self)@,
            ),
            printer_wf(final(self)@),
        decreases statements@, statements@.len() + 1,
    {
        match directives {
            Some(dirs) => {
                if dirs.len() == 0 {
                    if statements.len() > 0 {
                        if let Statement::ExpressionStatement { expression, .. } = &statements[0] {
                            if matches!(expression.get_inner_expression(), Expression::StringLiteral { .. }) {
                                self.print_semicolon();
                            }
                        }
                    }
                } else {
                    let mut i: usize = 0;
                    while i < dirs.len()
                        invariant
                            i <= dirs@.len(),
                            printer_wf(self@),
                            self@ == gen_directives_upto_s(dirs@, i as int, old(self)@),
                        decreases dirs@.len() - i,
                    {
                        self.print('"');
                        self.print_str(dirs[i].directive.as_str());
                        self.print('"');
                        self.print_semicolon();
                        i = i + 1;
                    }
                    self.print_soft_newline();
                }
            },
            None => {},
        }
        let ghost st1 = self@;
        let mut i: usize = 0;
        while i < statements.len()
            invariant
                i <= statements@.len(),
                printer_wf(self@),
                self@ == gen_stmts_upto_s(statements@, i as int, print_semicolon_first, ctx, st1),
            decreases statements@.len() - i,
        {
            let s = &statements[i];
            let skip = match s {
                Statement::Declaration { declaration } => match declaration {
                    Declaration::VariableDeclaration { .. } => false,
                    Declaration::TSTypeAliasDeclaration { .. } => !self.options.enable_typescript,
                    Declaration::TSEnumDeclaration { .. } => false,
                },
                _ => false,
            };
            if !skip {
                if print_semicolon_first {
                    self.print_semicolon_if_needed();
                    s.gen(self, ctx);
                } else {
                    s.gen(self, ctx);
                    self.print_semicolon_if_needed();
                }
            }
            i = i + 1;
        }
    }

    /// Print one expression under the loosest precedence and fresh flags.
    pub fn print_expression(&mut self, expr: &Expression)
        requires
            printer_wf(old(self)@),
        ensures
            final(self)@ == gen_expr_s(
                *expr,
                lowest_precedence(),
                Context { forbid_in: false },
                old(self)@,
            ),
            printer_wf(final(self)@),
    {
        expr.gen_expr(self, 0, Context::root());
    }

    /// Drive a whole print pass: walk the program, then finalize the buffer
    /// into the generated source text.
    pub fn build(self, program: &Program) -> (r: String)
        requires
            printer_wf(self@),
        ensures
            r@ == program_s(*program, self@).code,
    {
        let mut p = self;
        p.print_directives_and_statements_with_semicolon_order(
            Some(&program.directives),
            &program.body,
            Context::root(),
            false,
        );
        p.into_code()
    }
}

impl Expression {
    /// Print this expression, parenthesizing it exactly when its own
    /// precedence is below the surrounding one (or a bare `in` is forbidden).
    pub fn gen_expr(&self, p: &mut Codegen, precedence: u8, ctx: Context)
        requires
            printer_wf(old(p)@),
        ensures
            final(p)@ == gen_expr_s(*self, precedence, ctx, old(p)@),
            printer_wf(final(p)@),
        decreases *self, 0nat,
    {
        match self {
            Expression::Identifier { name } => {
                p.print_space_before_identifier();
                p.print_symbol(name.as_str());
            },
            Expression::NumericLiteral { raw } => {
                p.print_space_before_identifier();
                p.print_str(raw.as_str());
            },
            Expression::StringLiteral { value } => {
                p.wrap_quote(value.as_str());
            },
            Expression::ParenthesizedExpression { expression } => {
                p.print('(');
                expression.gen_expr(p, 0, Context { forbid_in: false });
                p.print(')');
            },
            Expression::BinaryExpression { operator, left, right } => {
                let my_prec = binary_precedence_exec(*operator);
                let wrap = my_prec < precedence || (ctx.forbid_in && matches!(
                    operator,
                    BinaryOperator::In,
                ));
                let ctx2 = if wrap {
                    Context { forbid_in: false }
                } else {
                    ctx
                };
                if wrap {
                    p.print('(');
                }
                left.gen_expr(p, my_prec, ctx2);
                p.print_binary_operator(*operator);
                p.print_soft_space();
                right.gen_expr(p, my_prec + 1, ctx2);
                if wrap {
                    p.print(')');
                }
            },
            Expression::UnaryExpression { operator, argument } => {
                let wrap = 15 < precedence;
                if wrap {
                    p.print('(');
                }
                p.print_unary_operator(*operator);
                argument.gen_expr(p, 15, ctx);
                if wrap {
                    p.print(')');
                }
            },
            Expression::UpdateExpression { operator, prefix, argument } => {
                if *prefix {
                    let wrap = 15 < precedence;
                    if wrap {
                        p.print('(');
                    }
                    p.print_update_prefix(*operator);
                    argument.gen_expr(p, 15, ctx);
                    if wrap {
                        p.print(')');
                    }
                } else {
                    let wrap = 16 < precedence;
                    if wrap {
                        p.print('(');
                    }
                    argument.gen_expr(p, 16, ctx);
                    p.print_update_postfix(*operator);
                    if wrap {
                        p.print(')');
                    }
                }
            },
            Expression::CallExpression { span_start, callee, arguments } => {
                let wrap = 18 < precedence;
                if wrap {
                    p.print('(');
                }
                gen_comment(*span_start, p);
                callee.gen_expr(p, 18, ctx);
                p.print('(');
                p.print_expressions(arguments, 2, Context { forbid_in: false });
                p.print(')');
                if wrap {
                    p.print(')');
                }
            },
        }
    }
}

impl Statement {
    /// Print this statement in its surrounding indentation, recording the
    /// statement-start position for constructs that must know it.
    pub fn gen(&self, p: &mut Codegen, ctx: Context)
        requires
            printer_wf(old(p)@),
        ensures
            final(p)@ == gen_stmt_s(*self, ctx, old(p)@),
            printer_wf(final(p)@),
        decreases *self, 2nat,
    {
        match self {
            Statement::ExpressionStatement { span_start: _, expression } => {
                p.print_indent();
                p.start_of_stmt = p.code.len();
                proof {
                    assert(p@ =~~= CodegenState {
                        start_of_stmt: print_indent_s(old(p)@).code.len() as int,
                        ..print_indent_s(old(p)@)
                    });
                }
                expression.gen_expr(p, 0, ctx);
                p.print_semicolon_after_statement();
            },
            Statement::BlockStatement { body } => {
                p.print_indent();
                p.print_block1(body, ctx);
                p.print_soft_newline();
            },
            Statement::Declaration { declaration } => {
                p.print_indent();
                declaration.gen(p, ctx);
            },
        }
    }
}

impl Declaration {
    /// Print this declaration, terminator included. A leading annotation
    /// comment on a variable declaration is relocated so it binds to the
    /// first declarator.
    pub fn gen(&self, p: &mut Codegen, ctx: Context)
        requires
            printer_wf(old(p)@),
        ensures
            final(p)@ == gen_declaration_s(*self, ctx, old(p)@),
            printer_wf(final(p)@),
        decreases *self, 1nat,
    {
        match self {
            Declaration::VariableDeclaration { span_start, kind, declarations } => {
                if p.options.preserve_annotate_comments && declarations.len() > 0 {
                    match get_leading_annotate_comment(*span_start, p) {
                        Some(pair) => {
                            proof {
                                let cm = p@.comments->0;
                                lemma_leading_comment_member(cm.trivials, *span_start);
                                let i = choose|i: int|
                                    0 <= i < cm.trivials.len() && cm.trivials[i] == pair;
                                assert(comment_in_source(
                                    cm.trivials[i].0,
                                    cm.trivials[i].1,
                                    cm.source,
                                ));
                            }
                            let ghost pre = p@;
                            p.move_comment(declarations[0].span_start, pair);
                            proof {
                                let cm = pre.comments->0;
                                let cm2 = p@.comments->0;
                                assert forall|k: u32| cm2.moved.contains_key(k) implies
                                    comment_in_source(
                                        (#[trigger] cm2.moved[k]).0,
                                        cm2.moved[k].1,
                                        cm2.source,
                                    ) by {
                                    if k == declarations@[0].span_start {
                                        assert(cm2.moved[k] == pair);
                                    } else {
                                        assert(cm.moved.contains_key(k));
                                        assert(cm2.moved[k] == cm.moved[k]);
                                    }
                                }
                                assert(wf_comments(p@.comments->0));
                            }
                        },
                        None => {},
                    }
                }
                p.print_space_before_identifier();
                match kind {
                    VariableDeclarationKind::Var => {
                        p.print_str("var");
                        proof {
                            reveal_strlit("var");
                            assert("var"@ =~= variable_kind_text(*kind));
                        }
                    },
                    VariableDeclarationKind::Let => {
                        p.print_str("let");
                        proof {
                            reveal_strlit("let");
                            assert("let"@ =~= variable_kind_text(*kind));
                        }
                    },
                    VariableDeclarationKind::Const => {
                        p.print_str("const");
                        proof {
                            reveal_strlit("const");
                            assert("const"@ =~= variable_kind_text(*kind));
                        }
                    },
                }
                p.print_list(declarations, ctx);
                p.print_semicolon_after_statement();
            },
            Declaration::TSTypeAliasDeclaration { name, annotation } => {
                p.print_space_before_identifier();
                p.print_str("type");
                proof {
                    reveal_strlit("type");
                    assert("type"@ =~= seq!['t', 'y', 'p', 'e']);
                }
                p.print_space_before_identifier();
                p.print_str(name.as_str());
                p.print_soft_space();
                p.print_equal();
                p.print_soft_space();
                p.print_str(annotation.as_str());
                p.print_semicolon_after_statement();
            },
            Declaration::TSEnumDeclaration { name, members } => {
                p.print_space_before_identifier();
                p.print_str("enum");
                proof {
                    reveal_strlit("enum");
                    assert("enum"@ =~= seq!['e', 'n', 'u', 'm']);
                }
                p.print_space_before_identifier();
                p.print_str(name.as_str());
                p.print_soft_space();
                p.print('{');
                p.print_sequence(members, Separator::Comma);
                p.print('}');
                p.print_soft_newline();
            },
        }
    }
}

impl VariableDeclarator {
    /// Print this declarator: its owed comments, its name, and `=` with its
    /// initializer when present.
    pub fn gen(&self, p: &mut Codegen, ctx: Context)
        requires
            printer_wf(old(p)@),
        ensures
            final(p)@ == gen_declarator_s(*self, ctx, old(p)@),
            printer_wf(final(p)@),
        decreases *self, 0nat,
    {
        gen_comment(self.span_start, p);
        p.print_space_before_identifier();
        p.print_str(self.id.as_str());
        match &self.init {
            None => {},
            Some(e) => {
                p.print_soft_space();
                p.print_equal();
                p.print_soft_space();
                e.gen_expr(p, 2, ctx);
            },
        }
    }
}

} // verus!
