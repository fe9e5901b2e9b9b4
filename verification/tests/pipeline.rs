use arithlang::ast::evaluator::Evaluator;
use arithlang::ast::parser::Parser;
use arithlang::ast::tree::{ExpressionKind, StatementKind};
use arithlang::diagnostics::Bag;

fn run(input: &str) -> (arithlang::ast::tree::Ast, Parser, Vec<i64>) {
    let bag = Bag::new();
    let mut parser = Parser::from_input(input, bag);
    let ast = parser.parse_ast();
    let mut evaluator = Evaluator::new();
    evaluator.evaluate(&ast);
    (ast, parser, evaluator.values)
}

#[test]
fn evaluates_mixed_precedence_with_parentheses() {
    let (_, parser, values) = run("7 - (3 + 7) * 8 / 2");
    assert!(parser.bag.diagnostics.is_empty());
    assert_eq!(values, vec![-33]);
}

#[test]
fn evaluates_larger_mixed_expression() {
    let (_, parser, values) = run("721 - (332 + 753) * 82 / 21");
    assert!(parser.bag.diagnostics.is_empty());
    assert_eq!(values, vec![-3515]);
}

#[test]
fn token_count_after_whitespace_filter() {
    let tokens = arithlang::ast::lexer::tokenize("721 - (332 + 753) * 82 / 21");
    let filtered: Vec<_> = tokens
        .iter()
        .filter(|t| !matches!(t.kind, arithlang::ast::lexer::TokenKind::Whitespace))
        .collect();
    assert_eq!(filtered.len(), 12);
}

#[test]
fn evaluates_remainder() {
    let (_, parser, values) = run("10 % 3");
    assert!(parser.bag.diagnostics.is_empty());
    assert_eq!(values, vec![1]);
}

#[test]
fn unary_minus_is_a_parse_error() {
    let (_, parser, _) = run("-10");
    assert_eq!(parser.bag.diagnostics.len(), 1);
    assert_eq!(
        parser.bag.diagnostics[0].message,
        "Expected expression, found <->"
    );
}

#[test]
fn dangling_operator_reports_expected_expression() {
    let (ast, parser, values) = run("1 +");
    assert_eq!(parser.bag.diagnostics.len(), 1);
    assert_eq!(
        parser.bag.diagnostics[0].message,
        "Expected expression, found <EOF>"
    );
    assert_eq!(ast.statements.len(), 1);
    let StatementKind::Expression(expr) = &ast.statements[0].kind;
    match &expr.kind {
        ExpressionKind::Binary(b) => {
            assert!(matches!(b.left.kind, ExpressionKind::Number(_)));
            assert!(matches!(b.right.kind, ExpressionKind::Error(_)));
        },
        other => panic!("expected a binary node, got {:?}", other),
    }
    assert!(values.is_empty());
}

#[test]
fn unclosed_parenthesis_reports_and_keeps_inner() {
    let (ast, parser, values) = run("(1 + 2");
    assert_eq!(parser.bag.diagnostics.len(), 1);
    assert_eq!(parser.bag.diagnostics[0].message, "Expected <)>, found <EOF>");
    assert_eq!(ast.statements.len(), 1);
    let StatementKind::Expression(expr) = &ast.statements[0].kind;
    match &expr.kind {
        ExpressionKind::Parenthesized(p) => {
            assert!(matches!(p.expression.kind, ExpressionKind::Binary(_)));
        },
        other => panic!("expected a parenthesized node, got {:?}", other),
    }
    assert_eq!(values, vec![3]);
}

#[test]
fn let_binding_reports_expected_expression_at_offset_zero() {
    let (_, parser, _) = run("let a = 10");
    assert!(!parser.bag.diagnostics.is_empty());
    assert_eq!(
        parser.bag.diagnostics[0].message,
        "Expected expression, found <Let>"
    );
    assert_eq!(parser.bag.diagnostics[0].span.start, 0);
}

#[test]
fn subtraction_is_left_associative() {
    let (_, parser, values) = run("1 - 2 - 3");
    assert!(parser.bag.diagnostics.is_empty());
    assert_eq!(values, vec![-4]);
}

#[test]
fn division_truncates_toward_zero() {
    let (_, _, values) = run("7 / 2");
    assert_eq!(values, vec![3]);
    let (_, _, values) = run("(0 - 7) / 2");
    assert_eq!(values, vec![-3]);
}

#[test]
fn remainder_follows_the_dividend_sign() {
    let (_, _, values) = run("(0 - 7) % 2");
    assert_eq!(values, vec![-1]);
}

#[test]
fn division_by_zero_records_no_value() {
    let (_, parser, values) = run("1 / 0");
    assert!(parser.bag.diagnostics.is_empty());
    assert!(values.is_empty());
}

#[test]
fn evaluation_overflow_records_no_value() {
    let (_, parser, values) = run("9223372036854775807 + 1");
    assert!(parser.bag.diagnostics.is_empty());
    assert!(values.is_empty());
}

#[test]
fn error_nodes_match_expected_expression_diagnostics() {
    let (ast, parser, _) = run("let a = 10");
    let mut errors = 0usize;
    for statement in &ast.statements {
        let StatementKind::Expression(expr) = &statement.kind;
        if matches!(expr.kind, ExpressionKind::Error(_)) {
            errors += 1;
        }
    }
    let reported = parser
        .bag
        .diagnostics
        .iter()
        .filter(|d| d.message.starts_with("Expected expression"))
        .count();
    assert_eq!(errors, reported);
    assert_eq!(errors, 3);
}

#[test]
fn statements_follow_source_order() {
    let (_, parser, values) = run("1 + 1 2 * 3");
    assert!(parser.bag.diagnostics.is_empty());
    assert_eq!(values, vec![2, 6]);
}
