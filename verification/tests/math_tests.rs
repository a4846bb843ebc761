use html8::code_tree::types::{AssignEnum, DataType, VariableDefinitionStruct};
use html8::definitions::{Defined, Scope};
use html8::errors::ErrorKind;
use html8::math::analysis::{optimize_rec, typed_copy};
use html8::math::types::{ExprToken, VariableType};
use html8::math::{parse_expression, MathParser};

fn num(n: i32) -> Box<ExprToken> {
    Box::new(ExprToken::Number(n))
}

fn name(s: &str) -> ExprToken {
    ExprToken::Variable(VariableType::new(s.to_string(), DataType::Any, false))
}

fn fold(text: &str) -> ExprToken {
    optimize_rec(&parse_expression(text).unwrap(), &Scope::new())
}

fn variable(name: &str, data_type: DataType, value: ExprToken, is_const: bool) -> Defined {
    Defined::Variable(VariableDefinitionStruct {
        data_type,
        name: name.to_string(),
        value: AssignEnum::Expr(value),
        is_const,
    })
}

#[test]
fn multiplication_binds_tighter_than_addition() {
    assert_eq!(
        parse_expression("2+3*4"),
        Ok(ExprToken::Add(num(2), Box::new(ExprToken::Mul(num(3), num(4)))))
    );
    assert_eq!(fold("2+3*4"), ExprToken::Number(14));
}

#[test]
fn power_binds_tighter_than_multiplication() {
    assert_eq!(
        parse_expression("2^3*2"),
        Ok(ExprToken::Mul(Box::new(ExprToken::Pow(num(2), num(3))), num(2)))
    );
    assert_eq!(fold("2^3*2"), ExprToken::Number(16));
}

#[test]
fn subtraction_associates_to_the_left() {
    assert_eq!(
        parse_expression("10-2-3"),
        Ok(ExprToken::Sub(Box::new(ExprToken::Sub(num(10), num(2))), num(3)))
    );
    assert_eq!(fold("10-2-3"), ExprToken::Number(5));
}

#[test]
fn division_and_power_associate_to_the_left() {
    assert_eq!(fold("100/10/5"), ExprToken::Number(2));
    assert_eq!(fold("2^3^2"), ExprToken::Number(64));
}

#[test]
fn white_space_is_skipped_everywhere() {
    assert_eq!(parse_expression("  2 +\t3 * 4 "), parse_expression("2+3*4"));
    assert_eq!(parse_expression(" a ^ b "), Ok(ExprToken::Pow(Box::new(name("a")), Box::new(name("b")))));
}

#[test]
fn parses_names() {
    assert_eq!(parse_expression("x"), Ok(name("x")));
    assert_eq!(parse_expression("abc12"), Ok(name("abc12")));
    assert_eq!(
        parse_expression("x1+y"),
        Ok(ExprToken::Add(Box::new(name("x1")), Box::new(name("y"))))
    );
}

#[test]
fn a_name_ends_at_an_underscore() {
    assert_eq!(parse_expression("ab_cd"), Ok(name("ab")));
}

#[test]
fn parses_strings() {
    assert_eq!(parse_expression("\"hello world\""), Ok(ExprToken::Literal("hello world".to_string())));
    assert_eq!(parse_expression("\"\""), Ok(ExprToken::Literal(String::new())));
    assert_eq!(
        parse_expression("\"a\" + \"b\""),
        Ok(ExprToken::Add(
            Box::new(ExprToken::Literal("a".to_string())),
            Box::new(ExprToken::Literal("b".to_string()))
        ))
    );
}

#[test]
fn parses_numbers_up_to_the_largest() {
    assert_eq!(parse_expression("0"), Ok(ExprToken::Number(0)));
    assert_eq!(parse_expression("007"), Ok(ExprToken::Number(7)));
    assert_eq!(parse_expression("2147483647"), Ok(ExprToken::Number(2147483647)));
}

#[test]
fn a_number_that_does_not_fit_is_an_error() {
    let e = parse_expression("2147483648").unwrap_err();
    assert_eq!(e.kind, ErrorKind::MathProcessing);
    assert_eq!(e.message, "Invalid number 2147483648");
    let e = parse_expression("1+99999999999999999999").unwrap_err();
    assert_eq!(e.message, "Invalid number 99999999999999999999");
}

#[test]
fn an_unexpected_character_is_an_error() {
    for (text, c) in [("(1)", "("), ("1+)", ")"), (".5", "."), ("2*-3", "-"), ("#", "#")] {
        let e = parse_expression(text).unwrap_err();
        assert_eq!(e.kind, ErrorKind::MathProcessing);
        assert_eq!(e.message, format!("Unexpected char: {}", c));
    }
}

#[test]
fn a_missing_operand_is_an_error() {
    for text in ["", "   ", "1+", "2*", "3^ "] {
        let e = parse_expression(text).unwrap_err();
        assert_eq!(e.kind, ErrorKind::MathProcessing);
        assert_eq!(e.message, "Unexpected EOI");
    }
}

#[test]
fn an_unclosed_string_is_an_error() {
    let e = parse_expression("\"abc").unwrap_err();
    assert_eq!(e.kind, ErrorKind::MathProcessing);
    assert_eq!(e.message, "Unclosed `\"` for literal `abc...`");
}

#[test]
fn reading_stops_at_what_cannot_continue_the_expression() {
    assert_eq!(parse_expression("1 2"), Ok(ExprToken::Number(1)));
    assert_eq!(parse_expression("1)"), Ok(ExprToken::Number(1)));
    let mut parser = MathParser::new("12 + 3 ; rest");
    assert_eq!(parser.parse_expr(), Ok(ExprToken::Add(num(12), num(3))));
    assert_eq!(parser.iter.pos, 7);
}

#[test]
fn folding_computes_each_operation() {
    assert_eq!(fold("7+5"), ExprToken::Number(12));
    assert_eq!(fold("7-9"), ExprToken::Number(-2));
    assert_eq!(fold("7*6"), ExprToken::Number(42));
    assert_eq!(fold("7/2"), ExprToken::Number(3));
    assert_eq!(fold("2^10"), ExprToken::Number(1024));
    assert_eq!(fold("5^0"), ExprToken::Number(1));
    assert_eq!(fold("0^0"), ExprToken::Number(1));
    assert_eq!(fold("0^5"), ExprToken::Number(0));
    assert_eq!(fold("1^2000000000"), ExprToken::Number(1));
}

#[test]
fn division_rounds_towards_zero() {
    assert_eq!(fold("0-7/2"), ExprToken::Number(-3));
    let e = ExprToken::Div(num(-7), num(2));
    assert_eq!(optimize_rec(&e, &Scope::new()), ExprToken::Number(-3));
    let e = ExprToken::Div(num(7), num(-2));
    assert_eq!(optimize_rec(&e, &Scope::new()), ExprToken::Number(-3));
    let e = ExprToken::Div(num(-7), num(-2));
    assert_eq!(optimize_rec(&e, &Scope::new()), ExprToken::Number(3));
}

#[test]
fn powers_of_negative_numbers() {
    let e = ExprToken::Pow(num(-2), num(31));
    assert_eq!(optimize_rec(&e, &Scope::new()), ExprToken::Number(i32::MIN));
    let e = ExprToken::Pow(num(-1), num(7));
    assert_eq!(optimize_rec(&e, &Scope::new()), ExprToken::Number(-1));
    let e = ExprToken::Pow(num(-1), num(8));
    assert_eq!(optimize_rec(&e, &Scope::new()), ExprToken::Number(1));
    let e = ExprToken::Pow(num(-3), num(3));
    assert_eq!(optimize_rec(&e, &Scope::new()), ExprToken::Number(-27));
}

#[test]
fn what_has_no_value_in_32_bits_is_left_as_it_is() {
    assert_eq!(fold("1/0"), ExprToken::Div(num(1), num(0)));
    assert_eq!(fold("2147483647+1"), ExprToken::Add(num(2147483647), num(1)));
    assert_eq!(fold("65536*65536"), ExprToken::Mul(num(65536), num(65536)));
    assert_eq!(fold("2^31"), ExprToken::Pow(num(2), num(31)));
    assert_eq!(fold("2^2000000000"), ExprToken::Pow(num(2), num(2000000000)));
    let e = ExprToken::Pow(num(2), num(-1));
    assert_eq!(optimize_rec(&e, &Scope::new()), ExprToken::Pow(num(2), num(-1)));
    let e = ExprToken::Div(num(i32::MIN), num(-1));
    assert_eq!(optimize_rec(&e, &Scope::new()), ExprToken::Div(num(i32::MIN), num(-1)));
    let e = ExprToken::Sub(num(i32::MIN), num(1));
    assert_eq!(optimize_rec(&e, &Scope::new()), ExprToken::Sub(num(i32::MIN), num(1)));
}

#[test]
fn folding_works_from_the_leaves_up() {
    assert_eq!(fold("1/0+2*3"), ExprToken::Add(Box::new(ExprToken::Div(num(1), num(0))), num(6)));
    assert_eq!(fold("x+2*3"), ExprToken::Add(Box::new(name("x")), num(6)));
    assert_eq!(fold("\"a\"+1"), ExprToken::Add(Box::new(ExprToken::Literal("a".to_string())), num(1)));
}

#[test]
fn folding_twice_is_folding_once() {
    let scope = Scope::new();
    for text in ["2+3*4", "1/0+2*3", "2147483647+1-1", "\"a\"+\"b\"", "2^31*0", "7", "\"s\""] {
        let once = optimize_rec(&parse_expression(text).unwrap(), &scope);
        let twice = optimize_rec(&once, &scope);
        assert_eq!(twice, once);
    }
}

#[test]
fn a_constant_is_replaced_with_its_value() {
    let mut scope = Scope::new();
    scope.insert("k".to_string(), variable("k", DataType::Int, ExprToken::Number(4), true));
    scope.insert("v".to_string(), variable("v", DataType::Int, ExprToken::Number(5), false));
    assert_eq!(optimize_rec(&parse_expression("k*2").unwrap(), &scope), ExprToken::Number(8));
    assert_eq!(
        optimize_rec(&parse_expression("v*2").unwrap(), &scope),
        ExprToken::Mul(Box::new(name("v")), num(2))
    );
    let mut e = parse_expression("k+k").unwrap();
    e.optimize(&scope);
    assert_eq!(e, ExprToken::Number(8));
}

#[test]
fn the_latest_binding_of_a_name_counts() {
    let mut scope = Scope::new();
    scope.insert("k".to_string(), variable("k", DataType::Int, ExprToken::Number(4), true));
    scope.insert("k".to_string(), variable("k", DataType::Str, ExprToken::Literal("s".to_string()), true));
    assert_eq!(scope.get(&"k".to_string()), Some(&variable("k", DataType::Str, ExprToken::Literal("s".to_string()), true)));
    assert_eq!(scope.get(&"j".to_string()), None);
    assert_eq!(scope.clone().get(&"k".to_string()), scope.get(&"k".to_string()));
}

#[test]
fn types_of_literals_and_names() {
    let mut scope = Scope::new();
    scope.insert("n".to_string(), variable("n", DataType::Int, ExprToken::Number(4), false));
    scope.insert("s".to_string(), variable("s", DataType::Str, ExprToken::Literal("x".to_string()), false));
    assert_eq!(parse_expression("1+2").unwrap().get_type(&scope), Ok(DataType::Int));
    assert_eq!(parse_expression("\"a\"").unwrap().get_type(&scope), Ok(DataType::Str));
    assert_eq!(parse_expression("n*n").unwrap().get_type(&scope), Ok(DataType::Int));
    assert_eq!(parse_expression("s+s").unwrap().get_type(&scope), Ok(DataType::Str));
}

#[test]
fn typing_fills_in_the_references() {
    let mut scope = Scope::new();
    scope.insert("n".to_string(), variable("n", DataType::Int, ExprToken::Number(4), false));
    let mut e = parse_expression("n+1").unwrap();
    assert_eq!(e.get_type(&scope), Ok(DataType::Int));
    assert_eq!(
        e,
        ExprToken::Add(
            Box::new(ExprToken::Variable(VariableType::new("n".to_string(), DataType::Int, false))),
            num(1)
        )
    );
    let (copy, t) = typed_copy(&parse_expression("n").unwrap(), &scope).unwrap();
    assert_eq!(t, DataType::Int);
    assert_eq!(copy, ExprToken::Variable(VariableType::new("n".to_string(), DataType::Int, false)));
}

#[test]
fn operands_of_two_types_are_an_error() {
    let scope = Scope::new();
    let mut e = parse_expression("1+\"a\"").unwrap();
    let before = e.clone();
    let err = e.get_type(&scope).unwrap_err();
    assert_eq!(err.kind, ErrorKind::TypeCheck);
    assert_eq!(err.message, "Type mismatch for math operation: Int and Str");
    assert_eq!(e, before);
}

#[test]
fn the_type_of_an_unbound_name_is_an_error() {
    let err = parse_expression("1+q").unwrap().get_type(&Scope::new()).unwrap_err();
    assert_eq!(err.kind, ErrorKind::MathProcessing);
    assert_eq!(err.message, "Variable `q` not defined");
}

#[test]
fn check_def_reports_the_first_unbound_name() {
    let mut scope = Scope::new();
    scope.insert("a".to_string(), variable("a", DataType::Int, ExprToken::Number(1), false));
    assert!(parse_expression("a+1*a").unwrap().check_def(&scope).is_ok());
    assert!(parse_expression("1+\"s\"").unwrap().check_def(&scope).is_ok());
    let e = parse_expression("a+b*c").unwrap().check_def(&scope).unwrap_err();
    assert_eq!(e.var_name, "b");
    assert_eq!(e.message(), "Variable b not defined");
}
