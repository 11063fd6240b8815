use tinyscript::error::{Fault, Feature, Kind, RuntimeError};
use tinyscript::grammar::ParseError;
use tinyscript::lexer::TokenKind;
use tinyscript::ops::{BinOp, FloatOp, UnOp};
use tinyscript::show::Piece;
use tinyscript::value::FloatNum;
use tinyscript::{run, Failure, Outcome};

fn float_value(f: &FloatNum) -> f64 {
    match f {
        FloatNum::Literal(t) => t.iter().collect::<String>().parse().unwrap(),
        FloatNum::FromInt(i) => *i as f64,
        FloatNum::Arith(op, a, b) => {
            let x = float_value(a);
            let y = float_value(b);
            match op {
                FloatOp::Add => x + y,
                FloatOp::Sub => x - y,
                FloatOp::Mul => x * y,
                FloatOp::Div => x / y,
            }
        }
    }
}

fn render(out: &Outcome) -> String {
    let mut s = String::new();
    for p in &out.output {
        match p {
            Piece::Text(t) => s.extend(t.iter()),
            Piece::Number(f) => s.push_str(&format!("{}", float_value(f))),
            Piece::NumberDebug(f) => s.push_str(&format!("{:?}", float_value(f))),
        }
    }
    s
}

fn output_of(src: &str) -> String {
    let out = run(src);
    assert!(out.failure.is_none(), "unexpected failure: {:?}", out.failure);
    render(&out)
}

#[test]
fn variable_plus_literal() {
    assert_eq!(output_of("let x = 5; println(x + 2);"), "7\n");
}

#[test]
fn string_concatenation() {
    assert_eq!(output_of("let s = \"ab\"; println(s + \"cd\");"), "abcd\n");
}

#[test]
fn integer_times_string_repeats() {
    assert_eq!(output_of("let n = 3; println(n * \"x\");"), "xxx\n");
    assert_eq!(output_of("println(\"ab\" * 2);"), "abab\n");
    assert_eq!(output_of("println(0 * \"x\");"), "\n");
    assert_eq!(output_of("let n = -2; println(n * \"x\");"), "\n");
}

#[test]
fn user_function_returns_sum() {
    assert_eq!(output_of("fn add(a, b) { rn a + b; } println(add(2, 3));"), "5\n");
}

#[test]
fn wrong_argument_count_is_arity_error() {
    let out = run("fn add(a, b) { rn a + b; } println(add(2));");
    assert!(out.output.is_empty());
    match out.failure {
        Some(Failure::Runtime(RuntimeError::Arity { name, expected, found })) => {
            assert_eq!(name.iter().collect::<String>(), "add");
            assert_eq!(expected, 2);
            assert_eq!(found, 1);
        }
        other => panic!("expected an arity error, got {:?}", other),
    }
}

#[test]
fn increment_updates_variable() {
    assert_eq!(output_of("let i = 0; i++; println(i);"), "1\n");
    assert_eq!(output_of("let i = 0; i--; i--; println(i);"), "-2\n");
}

#[test]
fn increment_writes_only_the_current_scope() {
    let src = "let i = 0; fn f() { i++; rn i; } println(f()); println(i);";
    assert_eq!(output_of(src), "1\n0\n");
}

#[test]
fn deferred_binding_follows_its_variables() {
    assert_eq!(output_of("let a = 1; let b = a + 1; let a = 2; println(b);"), "3\n");
    assert_eq!(output_of("let a = 1; let b = a + 1; println(b); a++; println(b);"), "2\n3\n");
}

#[test]
fn division_by_zero_is_arithmetic_error() {
    let out = run("println(5 / 0);");
    assert!(out.output.is_empty());
    assert!(matches!(
        out.failure,
        Some(Failure::Runtime(RuntimeError::Arithmetic(Fault::DivisionByZero)))
    ));
}

#[test]
fn undefined_name_is_name_error() {
    let out = run("println(1); println(missing);");
    assert_eq!(render(&out), "1\n");
    match out.failure {
        Some(Failure::Runtime(RuntimeError::Name(n))) => {
            assert_eq!(n.iter().collect::<String>(), "missing")
        }
        other => panic!("expected a name error, got {:?}", other),
    }
}

#[test]
fn undefined_function_is_name_error() {
    let out = run("nothing(1);");
    assert!(matches!(out.failure, Some(Failure::Runtime(RuntimeError::Name(_)))));
}

#[test]
fn integer_division_truncates() {
    assert_eq!(output_of("let a = -7; println(7 / 2); println(a / 2);"), "3\n-3\n");
}

#[test]
fn integer_overflow_is_arithmetic_error() {
    let out = run("println(2147483647 + 1);");
    assert!(matches!(
        out.failure,
        Some(Failure::Runtime(RuntimeError::Arithmetic(Fault::Overflow)))
    ));
}

#[test]
fn floats_promote_integers() {
    assert_eq!(output_of("println(1 + 0.5);"), "1.5\n");
    assert_eq!(output_of("println(0.1 + 0.2);"), "0.30000000000000004\n");
    assert_eq!(output_of("println(3 / 2.0);"), "1.5\n");
    assert_eq!(output_of("let x = 1.5; x++; println(x);"), "2.5\n");
    let out = run("println(2.0 * 3);");
    match &out.output[0] {
        Piece::Number(FloatNum::Arith(FloatOp::Mul, a, b)) => {
            assert!(matches!(**a, FloatNum::Literal(_)));
            assert!(matches!(**b, FloatNum::FromInt(3)));
        }
        other => panic!("expected a product, got {:?}", other),
    }
}

#[test]
fn print_forms_of_values() {
    assert_eq!(output_of("print(True, None, \"s\", 4);"), "trueNones4");
    assert_eq!(output_of("println([1, \"a\"] + [2.5] + False);"), "[Integer(1), Str(\"a\"), Float(2.5), Boolean(false)]\n");
    assert_eq!(output_of("println([]);"), "[]\n");
}

#[test]
fn unary_operators_on_literals() {
    assert_eq!(output_of("println(-5); println(!0); println(!True); println(!None); println(![]); println(![1]);"), "-5\n-1\nfalse\ntrue\ntrue\nfalse\n");
}

#[test]
fn unary_minus_needs_an_integer_literal() {
    let out = run("let x = 1; println(-x);");
    assert!(matches!(
        out.failure,
        Some(Failure::Runtime(RuntimeError::Unsupported(Feature::Unary(UnOp::Minus))))
    ));
}

#[test]
fn mismatched_types_are_type_errors() {
    let out = run("println(1 + True);");
    assert!(matches!(
        out.failure,
        Some(Failure::Runtime(RuntimeError::Type { op: BinOp::Add, left: Kind::Integer, right: Kind::Boolean }))
    ));
    let out = run("println(\"a\" - \"b\");");
    assert!(matches!(
        out.failure,
        Some(Failure::Runtime(RuntimeError::Type { op: BinOp::Sub, left: Kind::Str, right: Kind::Str }))
    ));
}

#[test]
fn comparisons_have_no_runtime_meaning() {
    let out = run("println(1 < 2);");
    assert!(matches!(
        out.failure,
        Some(Failure::Runtime(RuntimeError::Unsupported(Feature::Operator(BinOp::Lt))))
    ));
}

#[test]
fn control_flow_statements_are_unsupported() {
    let out = run("if (1) { println(1); }");
    assert!(out.output.is_empty());
    assert!(matches!(
        out.failure,
        Some(Failure::Runtime(RuntimeError::Unsupported(Feature::Statement)))
    ));
}

#[test]
fn several_return_values_make_a_list() {
    assert_eq!(output_of("fn two() { rn 1, 2; } println(two());"), "[Integer(1), Integer(2)]\n");
    assert_eq!(output_of("fn none() { rn; } println(none());"), "None\n");
    assert_eq!(output_of("fn quiet() { let x = 1; } println(quiet());"), "None\n");
}

#[test]
fn return_stops_the_function_body() {
    assert_eq!(output_of("fn f() { rn 1; println(2); } println(f());"), "1\n");
}

#[test]
fn top_level_return_is_inert() {
    assert_eq!(output_of("rn 5; println(1);"), "1\n");
}

#[test]
fn redeclaring_a_function_replaces_it() {
    assert_eq!(output_of("fn f() { rn 1; } fn f() { rn 2; } println(f());"), "2\n");
}

#[test]
fn callee_sees_caller_variables() {
    assert_eq!(output_of("fn show() { rn v; } let v = 9; println(show());"), "9\n");
}

#[test]
fn unbounded_recursion_stops_at_the_depth_budget() {
    let out = run("fn f() { rn f(); } f();");
    assert!(matches!(out.failure, Some(Failure::Runtime(RuntimeError::TooDeep))));
}

#[test]
fn unset_variable_is_name_error() {
    let out = run("let x; println(x);");
    assert!(matches!(out.failure, Some(Failure::Runtime(RuntimeError::Name(_)))));
}

#[test]
fn lex_error_stops_before_running() {
    let out = run("println(1); $");
    assert!(out.output.is_empty());
    assert!(matches!(out.failure, Some(Failure::Lex(e)) if e.ch == '$'));
}

#[test]
fn parse_error_names_the_expected_token() {
    let out = run("let = 5;");
    assert!(matches!(
        out.failure,
        Some(Failure::Parse(ParseError::Expected { expected: TokenKind::Identifier, position: 1 }))
    ));
    let out = run("println(1;");
    assert!(matches!(out.failure, Some(Failure::Parse(ParseError::Expected { expected: TokenKind::RParen, .. }))));
}

#[test]
fn oversized_integer_literal_is_parse_error() {
    let out = run("println(2147483648);");
    assert!(matches!(out.failure, Some(Failure::Parse(ParseError::BadNumber { position: 2 }))));
}

#[test]
fn non_ascii_digit_is_parse_error() {
    let out = run("println(\u{663});");
    assert!(matches!(out.failure, Some(Failure::Parse(ParseError::BadNumber { .. }))));
}

#[test]
fn unicode_names_are_identifiers() {
    assert_eq!(output_of("let é = 4; println(é * 2);"), "8\n");
}

#[test]
fn stepping_a_string_is_an_error() {
    let out = run("let s = \"a\"; s++;");
    assert!(matches!(
        out.failure,
        Some(Failure::Runtime(RuntimeError::Step(UnOp::Increment)))
    ));
    let out = run("let d = 1 + 1; d--;");
    assert!(matches!(
        out.failure,
        Some(Failure::Runtime(RuntimeError::Step(UnOp::Decrement)))
    ));
}

#[test]
fn property_access_has_no_runtime_meaning() {
    let out = run("let a = 1; println(a.b);");
    assert!(matches!(
        out.failure,
        Some(Failure::Runtime(RuntimeError::Unsupported(Feature::Expression)))
    ));
}

#[test]
fn calling_a_property_is_unsupported() {
    let out = run("a.b();");
    assert!(matches!(
        out.failure,
        Some(Failure::Runtime(RuntimeError::Unsupported(Feature::CallTarget)))
    ));
}

#[test]
fn missing_expression_is_unexpected_token() {
    let out = run("println(;);");
    assert!(matches!(out.failure, Some(Failure::Parse(ParseError::Unexpected { position: 2 }))));
}

#[test]
fn self_referencing_deferred_binding_is_too_deep() {
    let out = run("let a = a + 1; println(a);");
    assert!(out.output.is_empty());
    assert!(matches!(out.failure, Some(Failure::Runtime(RuntimeError::TooDeep))));
}

#[test]
fn decrementing_a_float() {
    assert_eq!(output_of("let x = 0.5; x--; println(x);"), "-0.5\n");
}
