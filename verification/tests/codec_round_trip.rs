//! Tests of the binary program codec: round trips for every instruction
//! variant, nested loops included, and rejection of malformed bytes.

use mathvm::bytecode::Bytecode;
use mathvm::codec::{decode_program, encode_program};
use mathvm::compiler::compile;
use mathvm::lexer::tokenize;
use mathvm::parser::parse;
use mathvm::vm::{Answer, Machine, Outcome, Query};

fn round_trips(p: &Vec<Bytecode>) {
    let bytes = encode_program(p).expect("program should encode");
    let back = decode_program(&bytes).expect("bytes should decode");
    assert_eq!(&back, p);
}

#[test]
fn every_variant_round_trips() {
    let all = vec![
        Bytecode::PushNumber("3.25".to_string()),
        Bytecode::Add,
        Bytecode::Sub,
        Bytecode::Mul,
        Bytecode::Div,
        Bytecode::Sin,
        Bytecode::Cos,
        Bytecode::Tan,
        Bytecode::Cot,
        Bytecode::Sec,
        Bytecode::Csc,
        Bytecode::Sinh,
        Bytecode::Cosh,
        Bytecode::Tanh,
        Bytecode::Asinh,
        Bytecode::Acosh,
        Bytecode::Atanh,
        Bytecode::Exp,
        Bytecode::Log,
        Bytecode::Log10,
        Bytecode::Log2,
        Bytecode::Sqrt,
        Bytecode::Abs,
        Bytecode::Asin,
        Bytecode::Acos,
        Bytecode::Atan,
        Bytecode::Acot,
        Bytecode::Asec,
        Bytecode::Acsc,
        Bytecode::Pow,
        Bytecode::Fact,
        Bytecode::LogBase,
        Bytecode::Floor,
        Bytecode::Rand,
        Bytecode::RandInt,
        Bytecode::StoreVar("x".to_string()),
        Bytecode::LoadVar("x".to_string()),
        Bytecode::CallUserFunction("fn_name".to_string()),
    ];
    round_trips(&all);
}

#[test]
fn nested_loops_round_trip() {
    let inner = Bytecode::SumLoop {
        from: vec![Bytecode::PushNumber("1".to_string())],
        to: vec![Bytecode::PushNumber("3".to_string())],
        param: "j".to_string(),
        body: vec![Bytecode::LoadVar("j".to_string())],
    };
    let outer = Bytecode::ProductLoop {
        from: vec![Bytecode::PushNumber("1".to_string())],
        to: vec![Bytecode::PushNumber("2".to_string())],
        param: "i".to_string(),
        body: vec![inner, Bytecode::LoadVar("i".to_string()), Bytecode::Add],
    };
    round_trips(&vec![outer]);
}

#[test]
fn empty_program_round_trips() {
    round_trips(&Vec::new());
}

#[test]
fn compiled_source_round_trips() {
    let (ast, _) = parse(tokenize("def s(x) = x^2\nvar a = 2\nsum(from: 1, to: a, para: k, s(k))"))
        .unwrap();
    let mut program = Vec::new();
    compile(&ast, &mut program).unwrap();
    round_trips(&program);
}

#[test]
fn non_ascii_name_is_refused_by_the_encoder() {
    let p = vec![Bytecode::LoadVar("π".to_string())];
    assert!(encode_program(&p).is_none());
}

#[test]
fn bad_magic_is_refused() {
    let p = vec![Bytecode::Add];
    let mut bytes = encode_program(&p).unwrap();
    bytes[0] = b'X';
    assert!(decode_program(&bytes).is_none());
}

#[test]
fn wrong_version_is_refused() {
    let p = vec![Bytecode::Add];
    let mut bytes = encode_program(&p).unwrap();
    bytes[4] = 2;
    assert!(decode_program(&bytes).is_none());
}

#[test]
fn trailing_bytes_are_refused() {
    let p = vec![Bytecode::Add];
    let mut bytes = encode_program(&p).unwrap();
    bytes.push(0);
    assert!(decode_program(&bytes).is_none());
}

#[test]
fn truncated_bytes_are_refused() {
    let p = vec![Bytecode::StoreVar("name".to_string())];
    let bytes = encode_program(&p).unwrap();
    let cut = bytes[..bytes.len() - 1].to_vec();
    assert!(decode_program(&cut).is_none());
}

#[test]
fn unknown_tag_is_refused() {
    let p = vec![Bytecode::Add];
    let mut bytes = encode_program(&p).unwrap();
    let last = bytes.len() - 1;
    bytes[last] = 200;
    assert!(decode_program(&bytes).is_none());
}

#[test]
fn persisted_program_still_runs() {
    // Compile, persist, reload, and run: the decoded program behaves like
    // the one that was encoded.
    let (ast, funcs) = parse(tokenize("def s(x) = x + 1\nsum(from: 1, to: 3, para: k, s(k))"))
        .unwrap();
    let mut program = Vec::new();
    compile(&ast, &mut program).unwrap();
    let bytes = encode_program(&program).unwrap();
    let reloaded = decode_program(&bytes).unwrap();
    let mut m = Machine::for_program(reloaded, funcs);
    let mut pending: Option<Answer> = None;
    let mut result = None;
    for _ in 0..100_000 {
        match m.step(pending.take()) {
            Outcome::Running => {}
            Outcome::Need(q) => {
                let a = match q {
                    Query::ParseNumber(s) => {
                        Answer::Num(s.parse::<f64>().unwrap().to_bits())
                    }
                    Query::BinOp(_, a, b) => {
                        Answer::Num((f64::from_bits(a) + f64::from_bits(b)).to_bits())
                    }
                    Query::CeilInt(a) => Answer::Int(f64::from_bits(a).ceil() as i64),
                    Query::FloorInt(a) => Answer::Int(f64::from_bits(a).floor() as i64),
                    Query::IntToNum(i) => Answer::Num((i as f64).to_bits()),
                    _ => panic!("unexpected query"),
                };
                pending = Some(a);
            }
            Outcome::Done(bits) => {
                result = Some(f64::from_bits(bits));
                break;
            }
            Outcome::Failed(k) => panic!("failed: {k:?}"),
        }
    }
    // 2 + 3 + 4: the loop sums s(k) = k + 1 over 1..=3 (every arithmetic
    // query here is an addition).
    assert_eq!(result, Some(9.0));
}
