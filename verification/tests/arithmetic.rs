use sush::elements::calc::Calc;
use sush::elements::calculator::{calculate, CalcElement, CalcError};
use sush::feeder::Feeder;
use sush::shellcore::ShellCore;

fn eval_expr(expr: &str) -> Option<String> {
    let mut text = String::from(expr);
    text.push_str("))");
    let mut feeder = Feeder::new(&text);
    let mut core = ShellCore::new();
    let mut calc = Calc::parse(&mut feeder, &mut core)
        .ok()
        .expect("expression should not need more input")
        .expect("expression should tokenize");
    calc.eval(&mut core)
}

fn eval_err(expr: &str) -> CalcError {
    let mut text = String::from(expr);
    text.push_str("))");
    let mut feeder = Feeder::new(&text);
    let mut core = ShellCore::new();
    let calc = Calc::parse(&mut feeder, &mut core)
        .ok()
        .expect("expression should not need more input")
        .expect("expression should tokenize");
    match calculate(&calc.elements, &mut core) {
        Ok(v) => panic!("expected a typed failure, got {}", v),
        Err(e) => e,
    }
}

#[test]
fn precedence_mul_before_add() {
    assert_eq!(eval_expr("3+4*2"), Some("11".to_string()));
}

#[test]
fn parentheses_group() {
    assert_eq!(eval_expr("(1+2)*3"), Some("9".to_string()));
}

#[test]
fn divide_by_zero_is_typed_error() {
    assert_eq!(eval_err("10/0"), CalcError::DividedByZero);
    // The typed failure leaves the variable table untouched.
    let mut feeder = Feeder::new("10/0))");
    let mut core = ShellCore::new();
    core.set_var("x", "7");
    let calc = Calc::parse(&mut feeder, &mut core).ok().unwrap().unwrap();
    assert!(calculate(&calc.elements, &mut core).is_err());
    assert_eq!(core.get_var("x"), "7".to_string());
    assert_eq!(core.get_var("?"), "0".to_string());
}

#[test]
fn modulo_by_zero_is_typed_error() {
    assert_eq!(eval_err("7%0"), CalcError::DividedByZero);
}

#[test]
fn ternary_picks_first_branch() {
    assert_eq!(eval_expr("1?2:3"), Some("2".to_string()));
}

#[test]
fn ternary_picks_second_branch() {
    assert_eq!(eval_expr("0?2:3"), Some("3".to_string()));
}

#[test]
fn unary_minus_literal() {
    assert_eq!(eval_expr("-5"), Some("-5".to_string()));
}

#[test]
fn negative_integer_exponent_is_typed_error() {
    assert_eq!(eval_err("2**-1"), CalcError::NegativeExponent);
}

#[test]
fn float_literals_are_refused_by_integer_engine() {
    assert_eq!(eval_err("1.5+2.5"), CalcError::FloatUnsupported);
}

#[test]
fn exponentiation() {
    assert_eq!(eval_expr("2**10"), Some("1024".to_string()));
}

#[test]
fn comparison_yields_zero_or_one() {
    assert_eq!(eval_expr("3<=4"), Some("1".to_string()));
    assert_eq!(eval_expr("3>4"), Some("0".to_string()));
}

#[test]
fn logical_and_bitwise_operators() {
    assert_eq!(eval_expr("1&&0"), Some("0".to_string()));
    assert_eq!(eval_expr("1||0"), Some("1".to_string()));
    assert_eq!(eval_expr("6&3"), Some("2".to_string()));
    assert_eq!(eval_expr("6|3"), Some("7".to_string()));
    assert_eq!(eval_expr("6^3"), Some("5".to_string()));
    assert_eq!(eval_expr("1<<4"), Some("16".to_string()));
    assert_eq!(eval_expr("-8>>1"), Some("-4".to_string()));
    assert_eq!(eval_expr("~0"), Some("-1".to_string()));
    assert_eq!(eval_expr("!3"), Some("0".to_string()));
}

#[test]
fn comma_keeps_last_segment() {
    assert_eq!(eval_expr("1+1,2*3"), Some("6".to_string()));
}

#[test]
fn assignment_writes_back_and_chains() {
    let mut feeder = Feeder::new("x=5, x*2))");
    let mut core = ShellCore::new();
    let mut calc = Calc::parse(&mut feeder, &mut core).ok().unwrap().unwrap();
    assert_eq!(calc.eval(&mut core), Some("10".to_string()));
    assert_eq!(core.get_var("x"), "5".to_string());
}

#[test]
fn compound_assignment() {
    let mut feeder = Feeder::new("x=5, x+=3, x))");
    let mut core = ShellCore::new();
    let mut calc = Calc::parse(&mut feeder, &mut core).ok().unwrap().unwrap();
    assert_eq!(calc.eval(&mut core), Some("8".to_string()));
    assert_eq!(core.get_var("x"), "8".to_string());
}

#[test]
fn pre_increment_yields_new_value() {
    let mut feeder = Feeder::new("x=3, ++x))");
    let mut core = ShellCore::new();
    let mut calc = Calc::parse(&mut feeder, &mut core).ok().unwrap().unwrap();
    assert_eq!(calc.eval(&mut core), Some("4".to_string()));
    assert_eq!(core.get_var("x"), "4".to_string());
}

#[test]
fn post_increment_yields_old_value() {
    let mut feeder = Feeder::new("x=3, x++))");
    let mut core = ShellCore::new();
    let mut calc = Calc::parse(&mut feeder, &mut core).ok().unwrap().unwrap();
    assert_eq!(calc.eval(&mut core), Some("3".to_string()));
    assert_eq!(core.get_var("x"), "4".to_string());
}

#[test]
fn variable_reads_resolve_through_table() {
    let mut core = ShellCore::new();
    core.set_var("n", "21");
    let mut feeder = Feeder::new("n*2))");
    let mut calc = Calc::parse(&mut feeder, &mut core).ok().unwrap().unwrap();
    assert_eq!(calc.eval(&mut core), Some("42".to_string()));
}

#[test]
fn unset_variable_counts_as_zero() {
    assert_eq!(eval_expr("nosuch+7"), Some("7".to_string()));
}

#[test]
fn wrapping_matches_two_complement() {
    assert_eq!(eval_expr("2**63"), Some("-9223372036854775808".to_string()));
    assert_eq!(eval_expr("2**63-1"), Some("9223372036854775807".to_string()));
    assert_eq!(
        eval_expr("9223372036854775807+1"),
        Some("-9223372036854775808".to_string())
    );
    // An overlong literal wraps like every other 64-bit computation.
    assert_eq!(eval_expr("18446744073709551616"), Some("0".to_string()));
}

#[test]
fn stack_inconsistency_on_adjacent_operands() {
    assert_eq!(eval_err("1 2"), CalcError::StackInconsistency);
}

#[test]
fn missing_operand_is_typed_error() {
    assert_eq!(eval_err("*3"), CalcError::NoOperand);
}

#[test]
fn unbalanced_parenthesis_is_typed_error() {
    // The tokenizer never eats a closer it did not open, so an unmatched
    // opener is handed to the evaluator directly.
    let mut core = ShellCore::new();
    let elements = vec![CalcElement::LeftParen, CalcElement::Integer(1)];
    assert_eq!(
        calculate(&elements, &mut core),
        Err(CalcError::UnbalancedParen)
    );
}

#[test]
fn misplaced_ternary_is_typed_error() {
    assert_eq!(eval_err("1:2"), CalcError::MisplacedTernary);
}

#[test]
fn increment_of_literal_is_typed_error() {
    assert_eq!(eval_err("++5"), CalcError::InvalidIncrement);
}

#[test]
fn non_numeric_variable_is_typed_error() {
    let mut feeder = Feeder::new("x+1))");
    let mut core = ShellCore::new();
    core.set_var("x", "abc");
    let calc = Calc::parse(&mut feeder, &mut core).ok().unwrap().unwrap();
    assert_eq!(
        calculate(&calc.elements, &mut core),
        Err(CalcError::NonNumericVariable)
    );
}

#[test]
fn assignment_to_literal_is_typed_error() {
    assert_eq!(eval_err("5=3"), CalcError::AssignmentToValue);
}

#[test]
fn shift_out_of_range_is_typed_error() {
    assert_eq!(eval_err("1<<64"), CalcError::ShiftOutOfRange);
}

#[test]
fn empty_expression_is_zero() {
    assert_eq!(eval_expr(""), Some("0".to_string()));
}

#[test]
fn unterminated_expression_asks_for_more() {
    let mut feeder = Feeder::new("1+2");
    let mut core = ShellCore::new();
    assert!(Calc::parse(&mut feeder, &mut core).is_err());
    // Everything consumed was put back for the retry.
    assert_eq!(feeder.remaining, "1+2".to_string());
}
