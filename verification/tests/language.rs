//! End-to-end tests: lexing, parsing, compiling and running programs
//! through the virtual machine with a floating-point host.

use mathvm::ast::Expr;
use mathvm::compiler::{compile, CompileError};
use mathvm::lexer::{tokenize, BinaryOperator, SpecialFunction, Token};
use mathvm::parser::{parse, parse_functions, ParseError};
use mathvm::table::FunctionTable;
use mathvm::vm::{Answer, ErrorKind, Machine, Outcome, Query};

/// Answers one query with real floating-point arithmetic.  Random values
/// are fixed so tests are deterministic.
fn answer(q: &Query) -> Answer {
    match q {
        Query::ParseNumber(s) => {
            let v: f64 = s.parse().unwrap_or(f64::NAN);
            Answer::Num(v.to_bits())
        }
        Query::BinOp(op, a, b) => {
            let x = f64::from_bits(*a);
            let y = f64::from_bits(*b);
            let r = match op {
                BinaryOperator::Plus => x + y,
                BinaryOperator::Minus => x - y,
                BinaryOperator::Star => x * y,
                BinaryOperator::Slash => x / y,
                BinaryOperator::Pow => x.powf(y),
            };
            Answer::Num(r.to_bits())
        }
        Query::Fun1(f, a) => {
            let v = f64::from_bits(*a);
            let r = match f {
                SpecialFunction::Sin => v.sin(),
                SpecialFunction::Cos => v.cos(),
                SpecialFunction::Tan => v.tan(),
                SpecialFunction::Cot => 1.0 / v.tan(),
                SpecialFunction::Sec => 1.0 / v.cos(),
                SpecialFunction::Csc => 1.0 / v.sin(),
                SpecialFunction::Sinh => v.sinh(),
                SpecialFunction::Cosh => v.cosh(),
                SpecialFunction::Tanh => v.tanh(),
                SpecialFunction::Asinh => v.asinh(),
                SpecialFunction::Acosh => v.acosh(),
                SpecialFunction::Atanh => v.atanh(),
                SpecialFunction::Exp => v.exp(),
                SpecialFunction::Log => v.ln(),
                SpecialFunction::Log10 => v.log10(),
                SpecialFunction::Log2 => v.log2(),
                SpecialFunction::Sqrt => v.sqrt(),
                SpecialFunction::Abs => v.abs(),
                SpecialFunction::Asin => v.asin(),
                SpecialFunction::Acos => v.acos(),
                SpecialFunction::Atan => v.atan(),
                SpecialFunction::Acot => (1.0 / v).atan(),
                SpecialFunction::Asec => (1.0 / v).acos(),
                SpecialFunction::Acsc => (1.0 / v).asin(),
                SpecialFunction::Pow => v,
                SpecialFunction::Fact => factorial(v),
                SpecialFunction::Floor => v.floor(),
                SpecialFunction::LogBase | SpecialFunction::Rand | SpecialFunction::RandInt => {
                    f64::NAN
                }
            };
            Answer::Num(r.to_bits())
        }
        Query::LogBase(a, b) => {
            let base = f64::from_bits(*a);
            let v = f64::from_bits(*b);
            Answer::Num(v.log(base).to_bits())
        }
        Query::Rand => Answer::Num(0.5f64.to_bits()),
        Query::LeNum(a, b) => Answer::Bool(f64::from_bits(*a) <= f64::from_bits(*b)),
        Query::CeilInt(a) => Answer::Int(f64::from_bits(*a).ceil() as i64),
        Query::FloorInt(a) => Answer::Int(f64::from_bits(*a).floor() as i64),
        Query::RandIntDraw(lo, _hi) => Answer::Int(*lo),
        Query::IntToNum(i) => Answer::Num((*i as f64).to_bits()),
    }
}

fn factorial(x: f64) -> f64 {
    if x < 0.0 {
        return f64::NAN;
    }
    if x == 0.0 {
        return 1.0;
    }
    let mut acc = 1.0;
    let mut n = x.floor() as u64;
    while n > 1 {
        acc *= n as f64;
        n -= 1;
    }
    acc
}

/// Drives a machine to completion.
fn drive(mut m: Machine) -> Result<f64, ErrorKind> {
    let mut pending: Option<Answer> = None;
    for _ in 0..1_000_000u64 {
        match m.step(pending.take()) {
            Outcome::Running => {}
            Outcome::Need(q) => {
                pending = Some(answer(&q));
            }
            Outcome::Done(bits) => return Ok(f64::from_bits(bits)),
            Outcome::Failed(k) => return Err(k),
        }
    }
    panic!("machine did not settle");
}

/// Compiles source text and runs the program.
fn run_source(src: &str) -> Result<f64, ErrorKind> {
    let lines = tokenize(src);
    let (ast, funcs) = parse(lines).expect("parse failed");
    let mut program = Vec::new();
    compile(&ast, &mut program).expect("compile failed");
    drive(Machine::for_program(program, funcs))
}

/// Evaluates source text with the tree-walking entry instead of bytecode.
fn eval_source(src: &str) -> Result<f64, ErrorKind> {
    let lines = tokenize(src);
    let (ast, funcs) = parse(lines).expect("parse failed");
    drive(Machine::for_expr(ast, funcs))
}

#[test]
fn arithmetic_basics() {
    assert_eq!(run_source("1 + 2 * 3").unwrap(), 7.0);
    assert_eq!(run_source("(1 + 2) * 3").unwrap(), 9.0);
    assert_eq!(run_source("2 ^ 3 ^ 2").unwrap(), 512.0);
    assert_eq!(run_source("10 - 4 - 3").unwrap(), 3.0);
    assert_eq!(run_source("-3 + 5").unwrap(), 2.0);
    assert_eq!(run_source("|1 - 4|").unwrap(), 3.0);
}

#[test]
fn sum_loop_counts_to_fifteen() {
    assert_eq!(run_source("sum(from: 1, to: 5, para: i, i)").unwrap(), 15.0);
}

#[test]
fn product_loop_counts_to_twenty_four() {
    assert_eq!(run_source("product(from: 1, to: 4, para: i, i)").unwrap(), 24.0);
}

#[test]
fn empty_sum_range_is_zero() {
    assert_eq!(run_source("sum(from: 5, to: 1, para: i, i)").unwrap(), 0.0);
}

#[test]
fn empty_product_range_is_one() {
    assert_eq!(run_source("product(from: 5, to: 1, para: i, i)").unwrap(), 1.0);
}

#[test]
fn sequential_statements_keep_only_last_value() {
    assert_eq!(run_source("var x = 3\nx + 2").unwrap(), 5.0);
}

#[test]
fn user_function_call() {
    assert_eq!(run_source("def sq(x) = x^2\nsq(4) + 1").unwrap(), 17.0);
}

#[test]
fn shadowed_parameter_is_restored_after_call() {
    // `x` is both a variable and the function parameter; the call must not
    // clobber the outer binding.
    assert_eq!(run_source("def sq(x) = x^2\nvar x = 7\nsq(4) + x").unwrap(), 23.0);
}

#[test]
fn shadowed_loop_parameter_is_restored_each_iteration() {
    assert_eq!(run_source("var i = 100\nsum(from: 1, to: 3, para: i, i) + i").unwrap(), 106.0);
}

#[test]
fn factorial_of_three_is_six() {
    assert_eq!(run_source("3!").unwrap(), 6.0);
}

#[test]
fn factorial_of_negative_is_not_a_number() {
    assert!(run_source("(-1)!").unwrap().is_nan());
}

#[test]
fn division_by_zero_is_positive_infinity() {
    let v = run_source("1/0").unwrap();
    assert!(v.is_infinite() && v > 0.0);
}

#[test]
fn empty_program_reports_no_result() {
    assert_eq!(run_source(""), Err(ErrorKind::NoResult));
}

#[test]
fn unbound_variable_is_an_error() {
    assert_eq!(run_source("nope + 1"), Err(ErrorKind::VariableNotFound));
}

#[test]
fn unknown_function_is_an_error() {
    assert_eq!(run_source("f(1)"), Err(ErrorKind::FunctionNotFound));
}

#[test]
fn log_base_in_function_body_is_refused() {
    // `log` in source is the unary logarithm; the two-argument form exists
    // only as an instruction.  Build the body directly to reach the
    // evaluator's refusal.
    let body = Expr::Function {
        func: SpecialFunction::LogBase,
        arg: Box::new(Expr::Number("2".to_string())),
    };
    let mut funcs = FunctionTable::new();
    funcs.define("f".to_string(), "x".to_string(), body);
    let (ast, _) = parse(tokenize("f(1)")).unwrap();
    let mut program = Vec::new();
    compile(&ast, &mut program).unwrap();
    assert_eq!(drive(Machine::for_program(program, funcs)), Err(ErrorKind::LogBaseInBody));
}

#[test]
fn randint_in_function_body_is_refused() {
    assert_eq!(run_source("def f(x) = randint(1, x)\nf(8)"), Err(ErrorKind::RandIntInBody));
}

#[test]
fn randint_with_inverted_rounded_range_is_an_error() {
    // Bounds 0.2 and 0.8: ceiling 1, floor 0, an empty integer range.
    assert_eq!(run_source("randint(0.2, 0.8)"), Err(ErrorKind::InvalidRandIntRange));
}

#[test]
fn randint_draws_from_the_range() {
    // The test host answers with the lower bound.
    assert_eq!(run_source("randint(3, 9)").unwrap(), 3.0);
}

#[test]
fn rand_uses_the_host_value() {
    assert_eq!(run_source("rand()").unwrap(), 0.5);
}

#[test]
fn named_functions_compute() {
    assert_eq!(run_source("sqrt(9)").unwrap(), 3.0);
    assert_eq!(run_source("abs(0 - 5)").unwrap(), 5.0);
    assert_eq!(run_source("floor(2.7)").unwrap(), 2.0);
    // `log` is the unary natural logarithm even with two arguments: the
    // sequence argument evaluates to its last element.
    assert_eq!(run_source("log(2, 8)").unwrap(), 8.0f64.ln());
    assert!((run_source("sin(0)").unwrap()).abs() < 1e-12);
}

#[test]
fn compiled_and_tree_walking_agree_on_plain_programs() {
    // The same sources, run through the bytecode path and through the
    // tree-walking evaluator, give the same numbers.
    for src in [
        "1 + 2 * 3",
        "(1 + 2) ^ 2 - 4 / 8",
        "var x = 3\nx + 2",
        "sqrt(16) + floor(1.5)",
        "3! + |2 - 5|",
    ] {
        let a = run_source(src).unwrap();
        let b = eval_source(src).unwrap();
        assert_eq!(a, b, "paths disagree on {src}");
    }
}

#[test]
fn lexer_token_shapes() {
    let lines = tokenize("var x = 1.5 + sin(y)\n# a comment\n\nx => 2");
    assert_eq!(lines.len(), 2);
    assert_eq!(
        lines[0],
        vec![
            Token::Var,
            Token::Ident("x".to_string()),
            Token::Assign,
            Token::Number("1.5".to_string()),
            Token::Operator(BinaryOperator::Plus),
            Token::Function(SpecialFunction::Sin),
            Token::LParen,
            Token::Ident("y".to_string()),
            Token::RParen,
        ]
    );
    assert_eq!(
        lines[1],
        vec![Token::Ident("x".to_string()), Token::Arrow, Token::Number("2".to_string())]
    );
}

#[test]
fn lexer_drops_malformed_numbers() {
    // Two dots make no number; a lone dot neither.  Both vanish silently.
    let lines = tokenize("1.2.3 + .");
    assert_eq!(lines.len(), 1);
    assert_eq!(lines[0], vec![Token::Operator(BinaryOperator::Plus)]);
}

#[test]
fn lexer_keywords_are_case_insensitive_and_asin_is_not_one() {
    let lines = tokenize("SUM Sin aSiN");
    assert_eq!(
        lines[0],
        vec![
            Token::Sum,
            Token::Function(SpecialFunction::Sin),
            // The keyword table never held the inverse sine.
            Token::Ident("aSiN".to_string()),
        ]
    );
}

#[test]
fn parser_reports_each_failure() {
    fn err_of(src: &str) -> ParseError {
        match parse(tokenize(src)) {
            Err(e) => e,
            Ok(_) => panic!("expected a parse error for {src}"),
        }
    }
    assert_eq!(err_of("1 +"), ParseError::UnexpectedEnd);
    assert_eq!(err_of("* 2"), ParseError::OperatorMisplaced);
    assert_eq!(err_of("(1 + 2"), ParseError::ExpectedClosingParen);
    assert_eq!(err_of("f(1, 2"), ParseError::ExpectedClosingParenCall);
    assert_eq!(err_of("sin(1"), ParseError::ExpectedClosingParenArgs);
    assert_eq!(err_of("sin 1"), ParseError::ExpectedOpeningParen);
    assert_eq!(err_of("|1 + 2"), ParseError::ExpectedClosingPipe);
    assert_eq!(err_of("1 2"), ParseError::TrailingTokens);
    assert_eq!(err_of("1 + , 2"), ParseError::UnexpectedToken);
}

#[test]
fn malformed_definition_line_is_dropped() {
    // `def` without the exact head shape is ignored; the remaining
    // statement still runs.
    assert_eq!(run_source("def broken( = 1\n41 + 1").unwrap(), 42.0);
}

#[test]
fn later_function_definition_wins() {
    assert_eq!(run_source("def f(x) = x + 1\ndef f(x) = x * 2\nf(10)").unwrap(), 20.0);
}

#[test]
fn compile_checks_two_argument_arities() {
    let (ast, _) = parse(tokenize("randint(1, 2, 3)")).unwrap();
    let mut p = Vec::new();
    assert_eq!(compile(&ast, &mut p), Err(CompileError::RandIntArity));

    // The two-argument logarithm instruction is only reachable from a
    // hand-built tree; with any argument but a two-element sequence the
    // compiler refuses it.
    let ast2 = Expr::Function {
        func: SpecialFunction::LogBase,
        arg: Box::new(Expr::Number("1".to_string())),
    };
    let mut p2 = Vec::new();
    assert_eq!(compile(&ast2, &mut p2), Err(CompileError::LogBaseArity));
}

#[test]
fn discarded_statement_values_do_not_leak() {
    // The first statement's value is discarded into the scratch store; only
    // the last statement's value remains.
    assert_eq!(run_source("1 + 1\n2 + 2").unwrap(), 4.0);
}

#[test]
fn function_table_survives_separate_compilation() {
    // The compiled program holds only a call by name; the table supplies
    // the body at run time.
    let (ast, funcs) = parse(tokenize("def g(t) = t + 5\ng(10)")).unwrap();
    let mut program = Vec::new();
    compile(&ast, &mut program).unwrap();
    let empty = FunctionTable::new();
    assert_eq!(
        drive(Machine::for_program(program, empty)),
        Err(ErrorKind::FunctionNotFound)
    );
    let mut program2 = Vec::new();
    compile(&ast, &mut program2).unwrap();
    assert_eq!(drive(Machine::for_program(program2, funcs)).unwrap(), 15.0);
}

#[test]
fn nested_function_definition_fails_at_run_time() {
    let body = Expr::FunctionDef {
        name: "inner".to_string(),
        arg: "y".to_string(),
        body: Box::new(Expr::Number("1".to_string())),
    };
    let mut funcs = FunctionTable::new();
    funcs.define("f".to_string(), "x".to_string(), body);
    let (ast, _) = parse(tokenize("f(1)")).unwrap();
    let mut program = Vec::new();
    compile(&ast, &mut program).unwrap();
    assert_eq!(drive(Machine::for_program(program, funcs)), Err(ErrorKind::NestedFunctionDef));
}

#[test]
fn carriage_returns_and_blank_lines_are_handled() {
    let lines = tokenize("1 + 1\r\n\r\n2 * 2\r\n");
    assert_eq!(lines.len(), 2);
    assert_eq!(lines[1].len(), 3);
}

#[test]
fn unrecognised_characters_are_skipped() {
    assert_eq!(run_source("1 @ + $ 2").unwrap(), 3.0);
}

#[test]
fn postfix_factorial_applies_repeatedly() {
    assert_eq!(run_source("3!!").unwrap(), 720.0);
}

#[test]
fn sum_shape_with_wrong_keyword_is_a_plain_parse_error() {
    // `sum` with any deviation from its exact shape falls through to
    // ordinary parsing, where the keyword token cannot stand.
    assert!(parse(tokenize("sum(of: 1, to: 5, para: i, i)")).is_err());
}

#[test]
fn nested_loops_compute() {
    assert_eq!(
        run_source("sum(from: 1, to: 2, para: i, product(from: 1, to: i, para: j, j))").unwrap(),
        3.0
    );
}

#[test]
fn parse_functions_rederives_the_table() {
    let src = "def inc(x) = x + 1\ninc(4)";
    let funcs = parse_functions(src).unwrap();
    let (ast, _) = parse(tokenize("inc(4)")).unwrap();
    let mut program = Vec::new();
    compile(&ast, &mut program).unwrap();
    assert_eq!(drive(Machine::for_program(program, funcs)).unwrap(), 5.0);
}
