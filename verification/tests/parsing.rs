use rlox::error::Error;
use rlox::expression::{AstPrinter, Expr, LiteralValue};
use rlox::parser::Parser;
use rlox::scanner::Scanner;
use rlox::Lox;

fn parse(source: &str) -> Result<Expr, Error> {
    let mut lox = Lox::new();
    let mut scanner = Scanner::new(source.to_string());
    scanner.scan_tokens(&mut lox);
    assert!(!lox.had_error, "lexical error in {:?}", source);
    Parser::new(scanner.tokens).parse()
}

fn printed(source: &str) -> String {
    let expr = parse(source).expect("expected a successful parse");
    AstPrinter.print(expr)
}

fn parse_error(source: &str) -> String {
    match parse(source) {
        Ok(_) => panic!("expected a parse error for {:?}", source),
        Err(Error::ParserError(msg)) => msg,
    }
}

#[test]
fn subtraction_is_left_associative() {
    assert_eq!(printed("1 - 2 - 3"), "(- (- 1 2) 3)");
}

#[test]
fn multiplication_binds_tighter_than_addition() {
    assert_eq!(printed("1 + 2 * 3"), "(+ 1 (* 2 3))");
}

#[test]
fn grouping_overrides_precedence() {
    assert_eq!(printed("(1 + 2) * 3"), "(* (grouping (+ 1 2)) 3)");
}

#[test]
fn same_level_operators_fold_left() {
    assert_eq!(printed("1 / 2 * 3"), "(* (/ 1 2) 3)");
    assert_eq!(printed("1 + 2 - 3"), "(- (+ 1 2) 3)");
}

#[test]
fn equality_is_lowest_precedence() {
    assert_eq!(printed("1 < 2 == true"), "(== (< 1 2) true)");
    assert_eq!(printed("1 == 2 != 3"), "(!= (== 1 2) 3)");
}

#[test]
fn comparison_operators_parse() {
    assert_eq!(printed("1 > 2"), "(> 1 2)");
    assert_eq!(printed("1 >= 2"), "(>= 1 2)");
    assert_eq!(printed("1 < 2"), "(< 1 2)");
    assert_eq!(printed("1 <= 2"), "(<= 1 2)");
}

#[test]
fn unary_operators_nest() {
    assert_eq!(printed("!true"), "(! true)");
    assert_eq!(printed("-5"), "(- 5)");
    assert_eq!(printed("--5"), "(- (- 5))");
    assert_eq!(printed("-5 - 3"), "(- (- 5) 3)");
}

#[test]
fn literal_tokens_parse_to_literal_nodes() {
    assert_eq!(printed("true"), "true");
    assert_eq!(printed("false"), "false");
    assert_eq!(printed("nil"), "null");
    assert_eq!(printed("\"abc\""), "abc");
    assert_eq!(printed("1.50"), "1.5");
}

#[test]
fn printing_literal_values_directly() {
    let printer = AstPrinter;
    let number = Expr::Literal {
        value: LiteralValue::Number("123".to_string()),
    };
    assert_eq!(printer.print(number), "123");
    let null = Expr::Literal {
        value: LiteralValue::Null,
    };
    assert_eq!(printer.print(null), "null");
    let truth = Expr::Literal {
        value: LiteralValue::Bool(true),
    };
    assert_eq!(printer.print(truth), "true");
    let text = Expr::Literal {
        value: LiteralValue::String("hi".to_string()),
    };
    assert_eq!(printer.print(text), "hi");
}

#[test]
fn parenthesize_renders_a_named_group() {
    let printer = AstPrinter;
    let one = Expr::Literal {
        value: LiteralValue::Number("1".to_string()),
    };
    let two = Expr::Literal {
        value: LiteralValue::Number("2".to_string()),
    };
    assert_eq!(printer.parenthesize("pair", &[&one, &two]), "(pair 1 2)");
    assert_eq!(printer.parenthesize("empty", &[]), "(empty)");
}

#[test]
fn missing_closing_paren_is_a_parse_error() {
    assert_eq!(parse_error("(1 + 2"), "Expect ) after expression");
}

#[test]
fn empty_input_fails_with_expected_expression() {
    assert_eq!(parse_error(""), "expected expression");
}

#[test]
fn stray_operator_fails_with_expected_expression() {
    assert_eq!(parse_error("+ 1"), "expected expression");
    assert_eq!(parse_error("1 +"), "expected expression");
    assert_eq!(parse_error("()"), "expected expression");
}

#[test]
fn complete_reports_a_consumed_stream() {
    let mut lox = Lox::new();
    let mut scanner = Scanner::new("1 + 2".to_string());
    scanner.scan_tokens(&mut lox);
    let mut parser = Parser::new(scanner.tokens);
    assert!(!parser.complete());
    assert!(parser.parse().is_ok());
    assert!(parser.complete());
}

#[test]
fn run_prints_each_expression_in_order() {
    let mut lox = Lox::new();
    let prints = rlox::run("1 + 2 3 * 4", &mut lox);
    assert_eq!(prints, vec!["(+ 1 2)".to_string(), "(* 3 4)".to_string()]);
    assert!(!lox.had_error);
}

#[test]
fn run_reports_and_recovers_from_a_bad_expression() {
    let mut lox = Lox::new();
    let prints = rlox::run("* ; 7", &mut lox);
    assert_eq!(prints, vec!["7".to_string()]);
    assert!(lox.had_error);
    assert_eq!(
        lox.diagnostics,
        vec!["[line 1] Error  at '*': expected expression".to_string()]
    );
}

#[test]
fn run_reports_an_unclosed_group_at_the_end_marker() {
    let mut lox = Lox::new();
    let prints = rlox::run("(1 + 2", &mut lox);
    assert!(prints.is_empty());
    assert!(lox.had_error);
    assert_eq!(
        lox.diagnostics,
        vec!["[line 1] Error  at end: Expect ) after expression".to_string()]
    );
}

#[test]
fn run_keeps_lexical_and_syntax_errors_in_order() {
    let mut lox = Lox::new();
    let prints = rlox::run("@ 1 + 2", &mut lox);
    assert_eq!(prints, vec!["(+ 1 2)".to_string()]);
    assert_eq!(
        lox.diagnostics,
        vec!["[line 1] Error : Unexpected character".to_string()]
    );
}

#[test]
fn synchronize_skips_to_a_statement_boundary() {
    let mut lox = Lox::new();
    let mut scanner = Scanner::new("* * ; 9".to_string());
    scanner.scan_tokens(&mut lox);
    let mut parser = Parser::new(scanner.tokens);
    assert!(parser.parse().is_err());
    parser.synchronize();
    let after = parser.parse().expect("parse after synchronize");
    assert_eq!(AstPrinter.print(after), "9");
}

#[test]
fn deeply_nested_groupings_print_through() {
    assert_eq!(
        printed("((1))"),
        "(grouping (grouping 1))"
    );
}
