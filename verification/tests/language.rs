use lamscript::ast::Parser;
use lamscript::ast::Program;
use lamscript::ast::Statement;
use lamscript::ast::SyntaxError;
use lamscript::ast::TokenTag;
use lamscript::interpreter::EvaluationError;
use lamscript::interpreter::EvaluationValue;
use lamscript::interpreter::Interpreter;
use lamscript::lexer::LexError;
use lamscript::lexer::Lexer;
use lamscript::lexer::Operator;
use lamscript::lexer::TokenKind;

fn parse(source: &str) -> Result<Program, SyntaxError> {
    let tokens = Lexer::new(source).get_tokens().expect("scan failed");
    Parser::parse_program(tokens)
}

fn run(source: &str) -> Result<Vec<EvaluationValue>, EvaluationError> {
    let program = parse(source).expect("parse failed");
    let mut interpreter = Interpreter::new();
    interpreter.evaluate_program(&program)
}

fn first_number(source: &str) -> f64 {
    let results = run(source).expect("evaluation failed");
    match results[0] {
        EvaluationValue::Literal(bits) => f64::from_bits(bits),
        ref other => panic!("expected a literal, got {:?}", other),
    }
}

fn number_at(results: &[EvaluationValue], i: usize) -> f64 {
    match results[i] {
        EvaluationValue::Literal(bits) => f64::from_bits(bits),
        ref other => panic!("expected a literal, got {:?}", other),
    }
}

#[test]
fn round_trip_numeric_literal() {
    assert_eq!(first_number("1_000.5e+2"), 100050.0);
}

#[test]
fn plain_literal_forms() {
    assert_eq!(first_number("42"), 42.0);
    assert_eq!(first_number("3.5"), 3.5);
    assert_eq!(first_number("2E3"), 2000.0);
    assert_eq!(first_number("1_0.2_5e+0_1"), 102.5);
}

#[test]
fn left_associativity() {
    assert_eq!(first_number("10-3-2"), 5.0);
}

#[test]
fn precedence_product_over_sum() {
    assert_eq!(first_number("2+3*4"), 14.0);
    assert_eq!(first_number("2*3+4"), 10.0);
}

#[test]
fn bitwise_truncation() {
    assert_eq!(first_number("6&3"), 2.0);
    assert_eq!(first_number("6|1"), 7.0);
}

#[test]
fn bitwise_on_fractions_truncates() {
    assert_eq!(first_number("6.9&3.2"), 2.0);
}

#[test]
fn division_follows_ieee() {
    assert_eq!(first_number("1/0"), f64::INFINITY);
    let nan = first_number("0/0");
    assert!(nan.is_nan());
}

#[test]
fn lexical_scoping_curried_application() {
    let src = "a = \u{3BB}x.\u{3BB}y.x*y\n((a) 2) 10";
    let results = run(src).expect("evaluation failed");
    assert_eq!(number_at(&results, 1), 20.0);
}

#[test]
fn rebinding_does_not_change_captured_frame() {
    let src = "a = \u{3BB}x.\u{3BB}y.x*y\nb = (a) 2\na = 0\n(b) 10";
    let results = run(src).expect("evaluation failed");
    assert_eq!(number_at(&results, 3), 20.0);
}

#[test]
fn unbound_identifier_fails() {
    match run("x") {
        Err(EvaluationError::UnboundBinding(name)) => assert_eq!(name, "x"),
        other => panic!("expected an unbound-binding error, got {:?}", other),
    }
}

#[test]
fn halt_from_recursion_zero() {
    let results = run("(\u{3BB}x.\u{1D453}(0)) 1").expect("evaluation failed");
    assert!(matches!(results[0], EvaluationValue::HALT));
}

#[test]
fn halt_propagates_up_the_spine() {
    let results = run("((\u{3BB}x.\u{1D453}(0)) 1) 2").expect("evaluation failed");
    assert!(matches!(results[0], EvaluationValue::HALT));
}

#[test]
fn recursion_counts_down_and_halts() {
    let src = "c = \u{3BB}n.\u{1D453}(n-1)\n(c) 3";
    let results = run(src).expect("evaluation failed");
    assert!(matches!(results[1], EvaluationValue::HALT));
}

#[test]
fn recursion_rejects_non_numeric_step() {
    match run("(\u{3BB}x.\u{1D453}(\u{3BB}y.y)) 1") {
        Err(EvaluationError::RecursionValue) => {},
        other => panic!("expected a recursion-value error, got {:?}", other),
    }
}

#[test]
fn print_returns_its_argument() {
    assert_eq!(first_number("(\u{3BB}print.print) 5"), 5.0);
}

#[test]
fn unreserved_name_suppresses_capabilities() {
    assert_eq!(first_number("(\u{3BB}shout.shout) 5"), 5.0);
}

#[test]
fn ascii_echoes_and_returns_byte() {
    assert_eq!(first_number("(\u{3BB}ascii.ascii) 65"), 65.0);
}

#[test]
fn ascii_rejects_out_of_range() {
    match run("(\u{3BB}ascii.ascii) 255") {
        Err(EvaluationError::AsciiRange) => {},
        other => panic!("expected an ascii-range error, got {:?}", other),
    }
}

#[test]
fn sleep_returns_its_argument() {
    assert_eq!(first_number("(\u{3BB}sleep.sleep) 1"), 1.0);
}

#[test]
fn time_yields_a_number() {
    let results = run("(\u{3BB}time.time) 0").expect("evaluation failed");
    assert!(matches!(results[0], EvaluationValue::Literal(_)));
}

#[test]
fn input_rejects_unknown_mode() {
    match run("(\u{3BB}input.input) 5") {
        Err(EvaluationError::InputMode) => {},
        other => panic!("expected an input-mode error, got {:?}", other),
    }
}

#[test]
fn literal_in_function_position_passes_through() {
    assert_eq!(first_number("(2) 3"), 2.0);
}

#[test]
fn capability_rejects_closure_operand() {
    match run("(\u{3BB}print.\u{3BB}z.z) 1") {
        Err(EvaluationError::CapabilityOperand) => {},
        other => panic!("expected a capability-operand error, got {:?}", other),
    }
}

#[test]
fn binary_operands_must_be_numeric() {
    match run("a = \u{3BB}x.x\na+2") {
        Err(EvaluationError::NonNumericOperand) => {},
        other => panic!("expected a non-numeric-operand error, got {:?}", other),
    }
}

#[test]
fn recursion_marker_in_function_position_fails() {
    match run("(\u{1D453}(1)) 2") {
        Err(EvaluationError::FunctionPosition) => {},
        other => panic!("expected a function-position error, got {:?}", other),
    }
}

#[test]
fn parenthesized_operator_is_a_syntax_error() {
    match parse("(2+3)") {
        Err(SyntaxError::ExpectedOperator { expected, found }) => {
            assert_eq!(expected, Operator::RightParen);
            assert_eq!(found, Some(TokenTag::Operator(Operator::Plus)));
        },
        other => panic!("expected a missing-parenthesis error, got {:?}", other),
    }
}

#[test]
fn statement_cannot_start_with_an_operator() {
    match parse("+2") {
        Err(SyntaxError::UnexpectedStatementStart { found }) => {
            assert_eq!(found, Some(TokenTag::Operator(Operator::Plus)));
        },
        other => panic!("expected a statement-start error, got {:?}", other),
    }
}

#[test]
fn binding_statement_shape() {
    let program = parse("x = 2").expect("parse failed");
    match &program.statements[0] {
        Statement::Binding { name, .. } => assert_eq!(name, "x"),
        other => panic!("expected a binding, got {:?}", other),
    }
}

#[test]
fn comment_token_keeps_text() {
    let tokens = Lexer::new("// hi\n5").get_tokens().expect("scan failed");
    match &tokens[0] {
        TokenKind::Comment(text) => assert_eq!(text, " hi"),
        other => panic!("expected a comment, got {:?}", other),
    }
    assert!(matches!(tokens[1], TokenKind::Literal(_)));
    assert!(matches!(tokens[2], TokenKind::Eof));
}

#[test]
fn comment_statement_evaluates_to_unit() {
    let results = run("// note\n7").expect("evaluation failed");
    assert!(matches!(results[0], EvaluationValue::Unit));
    assert_eq!(number_at(&results, 1), 7.0);
}

#[test]
fn empty_source_is_just_the_end_marker() {
    let results = run("").expect("evaluation failed");
    assert_eq!(results.len(), 1);
    assert!(matches!(results[0], EvaluationValue::Unit));
}

#[test]
fn unrecognized_character_is_a_scan_error() {
    match Lexer::new("@").get_tokens() {
        Err(LexError::UnrecognizedCharacter { found, .. }) => assert_eq!(found, '@'),
        other => panic!("expected an unrecognized-character error, got {:?}", other),
    }
}

#[test]
fn exponent_without_digits_is_malformed() {
    match Lexer::new("1e").get_tokens() {
        Err(LexError::MalformedNumber { .. }) => {},
        other => panic!("expected a malformed-number error, got {:?}", other),
    }
    match Lexer::new("2E+").get_tokens() {
        Err(LexError::MalformedNumber { .. }) => {},
        other => panic!("expected a malformed-number error, got {:?}", other),
    }
}

#[test]
fn double_underscore_splits_the_numeral() {
    match run("1__2") {
        Err(EvaluationError::UnboundBinding(name)) => assert_eq!(name, "_2"),
        other => panic!("expected an unbound-binding error, got {:?}", other),
    }
}

#[test]
fn abstraction_body_extends_right() {
    // The body of an abstraction captures the whole arithmetic tail.
    assert_eq!(first_number("(\u{3BB}x.x+1) 2"), 3.0);
}

#[test]
fn application_argument_may_contain_arithmetic() {
    assert_eq!(first_number("(\u{3BB}x.x) 2+3*4"), 14.0);
}

#[test]
fn binding_without_value_fails() {
    match parse("x =") {
        Err(SyntaxError::UnexpectedPrefixToken { found }) => {
            assert_eq!(found, Some(TokenTag::Eof));
        },
        other => panic!("expected a prefix-token error, got {:?}", other),
    }
}

#[test]
fn abstraction_needs_a_parameter_name() {
    match parse("\u{3BB}5.x") {
        Err(SyntaxError::ExpectedParameter { found }) => {
            assert_eq!(found, Some(TokenTag::Literal));
        },
        other => panic!("expected a parameter error, got {:?}", other),
    }
}

#[test]
fn recursion_needs_parentheses() {
    match parse("1+\u{1D453} 5") {
        Err(SyntaxError::ExpectedRecursionParen { found }) => {
            assert_eq!(found, Some(TokenTag::Literal));
        },
        other => panic!("expected a recursion-paren error, got {:?}", other),
    }
}

#[test]
fn recursion_keyword_cannot_start_a_statement() {
    match parse("\u{1D453}(5)") {
        Err(SyntaxError::UnexpectedStatementStart { found }) => {
            assert_eq!(found, Some(TokenTag::Recursion));
        },
        other => panic!("expected a statement-start error, got {:?}", other),
    }
}

#[test]
fn keywords_and_operators_scan_as_single_tokens() {
    let tokens = Lexer::new("\u{3BB}x.\u{1D453}(x)").get_tokens().expect("scan failed");
    assert!(matches!(tokens[0], TokenKind::Lamda));
    assert!(matches!(tokens[1], TokenKind::Identifier(_)));
    assert!(matches!(tokens[2], TokenKind::Operator(Operator::Dot)));
    assert!(matches!(tokens[3], TokenKind::Recursion));
    assert!(matches!(tokens[4], TokenKind::Operator(Operator::LeftParen)));
    assert!(matches!(tokens[5], TokenKind::Identifier(_)));
    assert!(matches!(tokens[6], TokenKind::Operator(Operator::RightParen)));
    assert!(matches!(tokens[7], TokenKind::Eof));
}

#[test]
fn negative_operand_truncates_to_zero_bits() {
    // n is negative; the saturating truncation reads it as zero.
    let results = run("n = 0-5\nn&3").expect("evaluation failed");
    assert_eq!(number_at(&results, 1), 0.0);
}
