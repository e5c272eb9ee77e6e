use jscodegen::{
    choose_quote, count_char, BinaryOperator, Codegen, CodegenOptions, Comment, CommentGenRelated,
    CommentKind, Declaration, Directive, Expression, Program, Statement, UnaryOperator,
    UpdateOperator, VariableDeclarationKind, VariableDeclarator,
};

fn ident(s: &str) -> Expression {
    Expression::Identifier { name: s.to_string() }
}

fn num(s: &str) -> Expression {
    Expression::NumericLiteral { raw: s.to_string() }
}

fn strlit(s: &str) -> Expression {
    Expression::StringLiteral { value: s.to_string() }
}

fn binary(op: BinaryOperator, l: Expression, r: Expression) -> Expression {
    Expression::BinaryExpression { operator: op, left: Box::new(l), right: Box::new(r) }
}

fn expr_stmt(start: u32, e: Expression) -> Statement {
    Statement::ExpressionStatement { span_start: start, expression: e }
}

fn opts() -> CodegenOptions {
    CodegenOptions { enable_typescript: false, preserve_annotate_comments: false }
}

fn minify_expr(e: &Expression) -> String {
    let mut p = Codegen::new(0, true, opts(), None);
    p.print_expression(e);
    p.into_code()
}

fn pretty_expr(e: &Expression) -> String {
    let mut p = Codegen::new(0, false, opts(), None);
    p.print_expression(e);
    p.into_code()
}

fn minify_program(prog: &Program) -> String {
    Codegen::new(0, true, opts(), None).build(prog)
}

fn pretty_program(prog: &Program) -> String {
    Codegen::new(0, false, opts(), None).build(prog)
}

fn program(body: Vec<Statement>) -> Program {
    Program { directives: Vec::new(), body }
}

#[test]
fn quote_two_singles_one_double_picks_double() {
    assert_eq!(choose_quote("''\""), '"');
}

#[test]
fn quote_tie_prefers_single() {
    assert_eq!(choose_quote("'\""), '\'');
    assert_eq!(choose_quote(""), '\'');
    assert_eq!(choose_quote("plain"), '\'');
}

#[test]
fn count_char_counts() {
    assert_eq!(count_char("banana", 'a'), 3);
    assert_eq!(count_char("", 'x'), 0);
}

#[test]
fn string_literal_escapes_only_chosen_delimiter() {
    assert_eq!(minify_expr(&strlit("''\"")), "\"''\\\"\"");
    assert_eq!(minify_expr(&strlit("hi")), "'hi'");
    assert_eq!(minify_expr(&strlit("a\"b")), "'a\"b'");
}

#[test]
fn adjacency_plus_unary_plus_spaced() {
    let e = binary(
        BinaryOperator::Addition,
        ident("a"),
        Expression::UnaryExpression {
            operator: UnaryOperator::UnaryPlus,
            argument: Box::new(ident("b")),
        },
    );
    assert_eq!(minify_expr(&e), "a+ +b");
    assert_eq!(pretty_expr(&e), "a + +b");
}

#[test]
fn adjacency_plus_prefix_increment_spaced() {
    let e = binary(
        BinaryOperator::Addition,
        ident("a"),
        Expression::UpdateExpression {
            operator: UpdateOperator::Increment,
            prefix: true,
            argument: Box::new(ident("x")),
        },
    );
    assert_eq!(minify_expr(&e), "a+ ++x");
}

#[test]
fn adjacency_postfix_decrement_then_gt_spaced() {
    let e = binary(
        BinaryOperator::GreaterThan,
        Expression::UpdateExpression {
            operator: UpdateOperator::Decrement,
            prefix: false,
            argument: Box::new(ident("x")),
        },
        ident("y"),
    );
    let out = minify_expr(&e);
    assert_eq!(out, "x-- >y");
    assert!(!out.contains("-->"));
}

#[test]
fn double_unary_negation_spaced() {
    let e = Expression::UnaryExpression {
        operator: UnaryOperator::UnaryNegation,
        argument: Box::new(Expression::UnaryExpression {
            operator: UnaryOperator::UnaryNegation,
            argument: Box::new(ident("a")),
        }),
    };
    assert_eq!(minify_expr(&e), "- -a");
}

#[test]
fn minified_block_drops_semicolon_before_brace() {
    let prog = program(vec![Statement::BlockStatement {
        body: vec![expr_stmt(0, ident("a")), expr_stmt(2, ident("b"))],
    }]);
    let out = minify_program(&prog);
    assert_eq!(out, "{a;b}");
    assert!(!out.contains(";}"));
}

#[test]
fn consecutive_statements_single_separator() {
    let prog = program(vec![expr_stmt(0, ident("a")), expr_stmt(2, ident("b"))]);
    assert_eq!(minify_program(&prog), "a;b;");
}

#[test]
fn pretty_statements_eager_terminators() {
    let prog = program(vec![expr_stmt(0, ident("a")), expr_stmt(2, ident("b"))]);
    assert_eq!(pretty_program(&prog), "a;\nb;\n");
}

#[test]
fn pretty_block_indented() {
    let prog = program(vec![Statement::BlockStatement { body: vec![expr_stmt(0, ident("a"))] }]);
    assert_eq!(pretty_program(&prog), "{\n\ta;\n}\n");
}

#[test]
fn minified_output_never_longer_than_pretty() {
    let progs = vec![
        program(vec![expr_stmt(0, ident("a")), expr_stmt(2, ident("b"))]),
        program(vec![Statement::BlockStatement {
            body: vec![expr_stmt(0, binary(BinaryOperator::Addition, ident("a"), ident("b")))],
        }]),
        program(vec![expr_stmt(0, strlit("s"))]),
    ];
    for prog in &progs {
        assert!(minify_program(prog).len() <= pretty_program(prog).len());
    }
}

#[test]
fn in_operator_spaced_like_identifier() {
    let e = binary(BinaryOperator::In, ident("a"), ident("b"));
    assert_eq!(minify_expr(&e), "a in b");
}

#[test]
fn lower_precedence_operand_parenthesized() {
    let e = binary(
        BinaryOperator::Multiplication,
        binary(BinaryOperator::Addition, ident("a"), ident("b")),
        ident("c"),
    );
    assert_eq!(minify_expr(&e), "(a+b)*c");
    let f = binary(
        BinaryOperator::Addition,
        ident("a"),
        binary(BinaryOperator::Multiplication, ident("b"), ident("c")),
    );
    assert_eq!(minify_expr(&f), "a+b*c");
}

#[test]
fn left_associative_right_operand_parenthesized() {
    let e = binary(
        BinaryOperator::Subtraction,
        ident("a"),
        binary(BinaryOperator::Subtraction, ident("b"), ident("c")),
    );
    assert_eq!(minify_expr(&e), "a-(b-c)");
}

#[test]
fn parenthesized_expression_kept() {
    let e = Expression::ParenthesizedExpression { expression: Box::new(ident("a")) };
    assert_eq!(minify_expr(&e), "(a)");
}

#[test]
fn call_with_arguments() {
    let e = Expression::CallExpression {
        span_start: 0,
        callee: Box::new(ident("f")),
        arguments: vec![ident("x"), num("1")],
    };
    assert_eq!(minify_expr(&e), "f(x,1)");
}

fn pure_call_setup(preserve: bool) -> String {
    let source = "/* @__PURE__ */ foo()".to_string();
    let trivials = vec![(2u32, Comment { end: 13, kind: CommentKind::MultiLine })];
    let cgr = CommentGenRelated::new(trivials, source);
    let options = CodegenOptions { enable_typescript: false, preserve_annotate_comments: preserve };
    let prog = Program {
        directives: Vec::new(),
        body: vec![expr_stmt(
            16,
            Expression::CallExpression {
                span_start: 16,
                callee: Box::new(ident("foo")),
                arguments: Vec::new(),
            },
        )],
    };
    Codegen::new(21, true, options, Some(cgr)).build(&prog)
}

#[test]
fn pure_annotation_preserved_before_call() {
    let out = pure_call_setup(true);
    assert_eq!(out, "/* @__PURE__ */foo();");
    assert!(out.contains("/* @__PURE__ */"));
}

#[test]
fn pure_annotation_dropped_without_flag() {
    let out = pure_call_setup(false);
    assert_eq!(out, "foo();");
    assert!(!out.contains("@__PURE__"));
}

#[test]
fn annotation_relocated_to_declarator_prints_once() {
    let source = "/* @__PURE__ */ const x = 1;".to_string();
    let trivials = vec![(2u32, Comment { end: 13, kind: CommentKind::MultiLine })];
    let cgr = CommentGenRelated::new(trivials, source);
    let options = CodegenOptions { enable_typescript: false, preserve_annotate_comments: true };
    let prog = Program {
        directives: Vec::new(),
        body: vec![Statement::Declaration {
            declaration: Declaration::VariableDeclaration {
                span_start: 16,
                kind: VariableDeclarationKind::Const,
                declarations: vec![VariableDeclarator {
                    span_start: 22,
                    id: "x".to_string(),
                    init: Some(num("1")),
                }],
            },
        }],
    };
    let out = Codegen::new(28, true, options, Some(cgr)).build(&prog);
    assert_eq!(out, "const/* @__PURE__ */x=1;");
    assert_eq!(out.matches("@__PURE__").count(), 1);
}

#[test]
fn moved_comment_consumed_once() {
    let cgr = CommentGenRelated::new(Vec::new(), "/* c */".to_string());
    let options = CodegenOptions { enable_typescript: false, preserve_annotate_comments: true };
    let mut p = Codegen::new(0, true, options, Some(cgr));
    let c = Comment { end: 4, kind: CommentKind::MultiLine };
    p.move_comment(9, (2, c));
    assert_eq!(p.try_take_moved_comment(9), Some((2, c)));
    assert_eq!(p.try_take_moved_comment(9), None);
}

#[test]
fn leading_comment_lookup_nearest() {
    let trivials = vec![
        (0u32, Comment { end: 1, kind: CommentKind::SingleLine }),
        (5u32, Comment { end: 6, kind: CommentKind::SingleLine }),
    ];
    let cgr = CommentGenRelated::new(trivials, "x".repeat(20));
    let p = Codegen::new(0, true, opts(), Some(cgr));
    assert_eq!(p.try_get_leading_comment(4), Some((0, Comment { end: 1, kind: CommentKind::SingleLine })));
    assert_eq!(p.try_get_leading_comment(9), Some((5, Comment { end: 6, kind: CommentKind::SingleLine })));
    assert_eq!(p.try_get_leading_comment(0), None);
}

#[test]
fn typescript_alias_skipped_enum_kept() {
    let body = vec![
        Statement::Declaration {
            declaration: Declaration::TSTypeAliasDeclaration {
                name: "A".to_string(),
                annotation: "B".to_string(),
            },
        },
        Statement::Declaration {
            declaration: Declaration::TSEnumDeclaration {
                name: "E".to_string(),
                members: vec!["X".to_string(), "Y".to_string()],
            },
        },
    ];
    let prog = program(body);
    assert_eq!(minify_program(&prog), "enum E{X,Y,}");
    let ts_options = CodegenOptions { enable_typescript: true, preserve_annotate_comments: false };
    let out = Codegen::new(0, true, ts_options, None).build(&prog);
    assert_eq!(out, "type A=B;enum E{X,Y,}");
}

#[test]
fn empty_directive_list_guards_leading_string() {
    let prog = program(vec![expr_stmt(0, strlit("hi"))]);
    assert_eq!(minify_program(&prog), ";'hi';");
}

#[test]
fn directives_printed_with_terminators() {
    let prog = Program {
        directives: vec![Directive { directive: "use strict".to_string() }],
        body: vec![expr_stmt(0, ident("a"))],
    };
    assert_eq!(minify_program(&prog), "\"use strict\";a;");
    assert_eq!(pretty_program(&prog), "\"use strict\";\na;\n");
}

#[test]
fn variable_declaration_forms() {
    let prog = program(vec![Statement::Declaration {
        declaration: Declaration::VariableDeclaration {
            span_start: 0,
            kind: VariableDeclarationKind::Let,
            declarations: vec![
                VariableDeclarator { span_start: 4, id: "a".to_string(), init: Some(num("1")) },
                VariableDeclarator { span_start: 9, id: "b".to_string(), init: None },
            ],
        },
    }]);
    assert_eq!(minify_program(&prog), "let a=1,b;");
    assert_eq!(pretty_program(&prog), "let a = 1, b;\n");
}

#[test]
fn empty_printer_yields_empty_string() {
    let p = Codegen::new(0, true, opts(), None);
    assert_eq!(p.into_code(), "");
}

#[test]
fn hard_space_and_print_str() {
    let mut p = Codegen::new(0, true, opts(), None);
    p.print_str("ab");
    p.print_hard_space();
    p.print_colon();
    assert_eq!(p.into_code(), "ab :");
}

#[test]
fn empty_program_prints_nothing() {
    let prog = program(Vec::new());
    assert_eq!(minify_program(&prog), "");
    assert_eq!(pretty_program(&prog), "");
}

#[test]
fn empty_string_literal() {
    assert_eq!(minify_expr(&strlit("")), "''");
}

#[test]
fn single_statement_program_keeps_terminator() {
    let prog = program(vec![expr_stmt(0, ident("a"))]);
    assert_eq!(minify_program(&prog), "a;");
}

#[test]
fn single_line_annotation_comment_forces_newline_when_minified() {
    let source = "// @__PURE__\nfoo()".to_string();
    let trivials = vec![(2u32, Comment { end: 12, kind: CommentKind::SingleLine })];
    let cgr = CommentGenRelated::new(trivials, source);
    let options = CodegenOptions { enable_typescript: false, preserve_annotate_comments: true };
    let prog = Program {
        directives: Vec::new(),
        body: vec![expr_stmt(
            13,
            Expression::CallExpression {
                span_start: 13,
                callee: Box::new(ident("foo")),
                arguments: Vec::new(),
            },
        )],
    };
    let out = Codegen::new(18, true, options, Some(cgr)).build(&prog);
    assert_eq!(out, "// @__PURE__\nfoo();");
}
