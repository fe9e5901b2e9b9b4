use arithlang::ast::counter::Counter;
use arithlang::ast::lexer::{tokenize, Lexer, TextSpan, Token, TokenKind};
use arithlang::ast::parser::Parser;
use arithlang::ast::tree::Printer;
use arithlang::diagnostics::printer::Printer as DiagnosticPrinter;
use arithlang::diagnostics::{Bag, Diagnostic, DiagnosticKind};
use arithlang::strings::i64_to_string;
use arithlang::text::Source;

const RED: &str = "\u{1b}[38;5;1m";
const CYAN: &str = "\u{1b}[38;5;6m";
const WHITE: &str = "\u{1b}[38;5;7m";
const RESET: &str = "\u{1b}[39m";

#[test]
fn lexer_round_trip_reproduces_input() {
    let input = "let a = 10 + (2 * 3)";
    let tokens = tokenize(input);
    let mut rebuilt = String::new();
    for token in &tokens[..tokens.len() - 1] {
        rebuilt.push_str(&token.span.literal);
    }
    assert_eq!(rebuilt, input);
}

#[test]
fn lexer_emits_exactly_one_eof_and_last() {
    let tokens = tokenize("1 + 2");
    let eofs = tokens
        .iter()
        .filter(|t| matches!(t.kind, TokenKind::Eof))
        .count();
    assert_eq!(eofs, 1);
    assert!(matches!(tokens.last().unwrap().kind, TokenKind::Eof));
}

#[test]
fn lexer_spans_are_monotone() {
    let tokens = tokenize("12 + 345 * (6 % 7)");
    for pair in tokens[..tokens.len() - 1].windows(2) {
        assert!(pair[0].span.end <= pair[1].span.start);
    }
}

#[test]
fn lexer_emits_one_whitespace_token_per_character() {
    let tokens = tokenize("a  b");
    let kinds: Vec<_> = tokens.iter().map(|t| &t.kind).collect();
    assert_eq!(kinds.len(), 5);
    assert!(matches!(kinds[0], TokenKind::Identifier(s) if s == "a"));
    assert!(matches!(kinds[1], TokenKind::Whitespace));
    assert!(matches!(kinds[2], TokenKind::Whitespace));
    assert!(matches!(kinds[3], TokenKind::Identifier(s) if s == "b"));
    assert!(matches!(kinds[4], TokenKind::Eof));
}

#[test]
fn lexer_recognizes_keyword_and_identifier() {
    let tokens = tokenize("let lets");
    assert!(matches!(tokens[0].kind, TokenKind::Let));
    assert!(matches!(&tokens[2].kind, TokenKind::Identifier(s) if s == "lets"));
}

#[test]
fn lexer_flags_unknown_byte_as_bad() {
    let tokens = tokenize("@");
    assert!(matches!(tokens[0].kind, TokenKind::Bad));
    assert_eq!(tokens[0].span.literal, "@");
}

#[test]
fn lexer_flags_oversized_number_as_bad() {
    let tokens = tokenize("99999999999999999999");
    assert!(matches!(tokens[0].kind, TokenKind::Bad));
    assert_eq!(tokens[0].span.end, 20);
}

#[test]
fn lexer_reads_boundary_number() {
    let tokens = tokenize("9223372036854775807");
    assert!(matches!(tokens[0].kind, TokenKind::Number(9223372036854775807)));
}

#[test]
fn lexer_next_token_signals_end_after_eof() {
    let mut lexer = Lexer::new("1");
    assert!(lexer.next_token().is_some());
    let eof = lexer.next_token().unwrap();
    assert!(matches!(eof.kind, TokenKind::Eof));
    assert_eq!(eof.span.start, 0);
    assert_eq!(eof.span.end, 0);
    assert_eq!(eof.span.literal, "\u{0}");
    assert!(lexer.next_token().is_none());
    assert!(lexer.next_token().is_none());
}

#[test]
fn text_span_length() {
    let span = TextSpan::new(2, 5, String::from("abc"));
    assert_eq!(span.length(), 3);
}

#[test]
fn token_new_keeps_kind_and_span() {
    let token = Token::new(TokenKind::Plus, TextSpan::new(0, 1, String::from("+")));
    assert!(matches!(token.kind, TokenKind::Plus));
    assert_eq!(token.span.literal, "+");
}

#[test]
fn source_positions_on_two_lines() {
    let source = Source::new(String::from("ab\ncd"));
    assert_eq!(source.line_index(0), 0);
    assert_eq!(source.line_index(2), 0);
    assert_eq!(source.line_index(3), 1);
    assert_eq!(source.line_start(1), 3);
    assert_eq!(source.get_line(1), "cd");
    assert_eq!(source.get_line(0), "ab");
    assert_eq!(source.line_start(0), 0);
}

#[test]
fn counter_counts() {
    let mut counter = Counter::new();
    assert_eq!(counter.get(), 0);
    counter.increment();
    counter.increment();
    assert_eq!(counter.get(), 2);
}

#[test]
fn counter_wrapping_add_signed() {
    let mut counter = Counter::new();
    for _ in 0..5 {
        counter.increment();
    }
    assert_eq!(counter.wrapping_add_signed(3), 8);
    assert_eq!(counter.wrapping_add_signed(-1), 4);
    assert_eq!(counter.wrapping_add_signed(-7), usize::MAX - 1);
}

#[test]
fn printer_renders_with_colors() {
    let bag = Bag::new();
    let mut parser = Parser::from_input("1 + 2", bag);
    let ast = parser.parse_ast();
    let mut printer = Printer::new();
    for statement in &ast.statements {
        printer.visit_statement(statement);
    }
    let expected = format!("{CYAN}1 {WHITE}+ {CYAN}2{RESET}");
    assert_eq!(printer.result, expected);
}

#[test]
fn printer_renders_parentheses_once() {
    let bag = Bag::new();
    let mut parser = Parser::from_input("(5)", bag);
    let ast = parser.parse_ast();
    let mut printer = Printer::new();
    for statement in &ast.statements {
        printer.visit_statement(statement);
    }
    let expected = format!("{WHITE}({CYAN}5{WHITE}){RESET}");
    assert_eq!(printer.result, expected);
}

#[test]
fn visitor_dispatch_reaches_both_consumers() {
    let bag = Bag::new();
    let mut parser = Parser::from_input("1 + 2", bag);
    let ast = parser.parse_ast();
    let mut evaluator = arithlang::ast::evaluator::Evaluator::new();
    ast.visit(&mut evaluator);
    assert_eq!(evaluator.values, vec![3]);
    assert_eq!(evaluator.last_value, Some(3));
    let mut printer = Printer::new();
    ast.visit(&mut printer);
    let expected = format!("{CYAN}1 {WHITE}+ {CYAN}2{RESET}");
    assert_eq!(printer.result, expected);
}

#[test]
fn bag_keeps_reports_in_order() {
    let mut bag = Bag::new();
    bag.report_error(String::from("first"), TextSpan::new(0, 1, String::from("a")));
    bag.report_warning(String::from("second"), TextSpan::new(1, 2, String::from("b")));
    assert_eq!(bag.diagnostics.len(), 2);
    assert_eq!(bag.diagnostics[0].message, "first");
    assert!(matches!(bag.diagnostics[0].kind, DiagnosticKind::Error));
    assert_eq!(bag.diagnostics[1].message, "second");
    assert!(matches!(bag.diagnostics[1].kind, DiagnosticKind::Warning));
    let direct = Diagnostic::new(
        String::from("third"),
        TextSpan::new(2, 3, String::from("c")),
        DiagnosticKind::Error,
    );
    assert_eq!(direct.message, "third");
}

#[test]
fn identifier_diagnostic_shows_its_text() {
    let bag = Bag::new();
    let mut parser = Parser::from_input("oops", bag);
    let _ast = parser.parse_ast();
    assert_eq!(parser.bag.diagnostics.len(), 1);
    assert_eq!(
        parser.bag.diagnostics[0].message,
        "Expected expression, found <oops>"
    );
}

#[test]
fn unexpected_token_report_names_both_kinds() {
    let mut bag = Bag::new();
    let actual = Token::new(TokenKind::Bad, TextSpan::new(0, 1, String::from("@")));
    bag.report_unexpected_token(&TokenKind::RightParen, &actual);
    assert_eq!(bag.diagnostics.len(), 1);
    assert_eq!(bag.diagnostics[0].message, "Expected <)>, found <Bad>");
}

#[test]
fn renders_negative_number() {
    assert_eq!(i64_to_string(-57), "-57");
    assert_eq!(i64_to_string(0), "0");
    assert_eq!(i64_to_string(9001), "9001");
    assert_eq!(i64_to_string(i64::MIN), "-9223372036854775808");
}

#[test]
fn stringify_diagnostic_points_at_the_line() {
    let input = "1 +";
    let bag = Bag::new();
    let mut parser = Parser::from_input(input, bag);
    let _ast = parser.parse_ast();
    assert_eq!(parser.bag.diagnostics.len(), 1);
    let text = Source::new(String::from(input));
    let printer = DiagnosticPrinter::new(&text, &parser.bag.diagnostics);
    let rendered = printer.stringify_diagnostic(&parser.bag.diagnostics[0]);
    let expected = format!(
        "{RED}1{RESET} +{RED}\n        \u{2514}\u{2500} Expected expression, found <EOF>{RESET}"
    );
    assert_eq!(rendered, expected);
}

#[test]
fn stringify_diagnostic_mid_line() {
    let input = "let a = 10";
    let bag = Bag::new();
    let mut parser = Parser::from_input(input, bag);
    let _ast = parser.parse_ast();
    let text = Source::new(String::from(input));
    let printer = DiagnosticPrinter::new(&text, &parser.bag.diagnostics);
    let rendered = printer.stringify_diagnostic(&parser.bag.diagnostics[0]);
    // span [0, 3), one extra character joins the highlight
    let expected = format!(
        "{RED}let {RESET}a = 10{RED}\n        \u{2514}\u{2500} Expected expression, found <Let>{RESET}"
    );
    assert_eq!(rendered, expected);
}
