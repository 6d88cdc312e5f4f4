//! The AST-to-bytecode compiler.

use vstd::prelude::*;
use vstd::string::StringExecFns;
use crate::ast::{Expr, ExprModel, expr_model, exprs_model, lemma_exprs_model_len};
use crate::bytecode::{Bytecode, BytecodeModel, Program, bc_model, prog_model, lemma_prog_model_len};
use crate::lexer::{BinaryOperator, SpecialFunction};

verus! {

/// Compile-time failures.  Anything else that is wrong with a program only
/// shows at run time.
#[derive(Debug, Clone, Copy, PartialEq, Eq, Structural)]
pub enum CompileError {
    /// The random-integer function was applied to other than two arguments.
    RandIntArity,
    /// The two-argument logarithm was applied to other than two arguments.
    LogBaseArity,
}

/// The scratch store that discards an unused statement value.
pub open spec fn store_tmp() -> BytecodeModel {
    BytecodeModel::StoreVar("_tmp"@)
}

/// The instruction of a binary operator.
pub open spec fn op_instr(op: BinaryOperator) -> BytecodeModel {
    match op {
        BinaryOperator::Plus => BytecodeModel::Add,
        BinaryOperator::Minus => BytecodeModel::Sub,
        BinaryOperator::Star => BytecodeModel::Mul,
        BinaryOperator::Slash => BytecodeModel::Div,
        BinaryOperator::Pow => BytecodeModel::Pow,
    }
}

/// The instruction of a named function applied to one compiled argument.
pub open spec fn fun_instr(f: SpecialFunction) -> BytecodeModel {
    match f {
        SpecialFunction::Sin => BytecodeModel::Sin,
        SpecialFunction::Cos => BytecodeModel::Cos,
        SpecialFunction::Tan => BytecodeModel::Tan,
        SpecialFunction::Cot => BytecodeModel::Cot,
        SpecialFunction::Sec => BytecodeModel::Sec,
        SpecialFunction::Csc => BytecodeModel::Csc,
        SpecialFunction::Sinh => BytecodeModel::Sinh,
        SpecialFunction::Cosh => BytecodeModel::Cosh,
        SpecialFunction::Tanh => BytecodeModel::Tanh,
        SpecialFunction::Asinh => BytecodeModel::Asinh,
        SpecialFunction::Acosh => BytecodeModel::Acosh,
        SpecialFunction::Atanh => BytecodeModel::Atanh,
        SpecialFunction::Exp => BytecodeModel::Exp,
        SpecialFunction::Log => BytecodeModel::Log,
        SpecialFunction::Log10 => BytecodeModel::Log10,
        SpecialFunction::Log2 => BytecodeModel::Log2,
        SpecialFunction::Sqrt => BytecodeModel::Sqrt,
        SpecialFunction::Abs => BytecodeModel::Abs,
        SpecialFunction::Asin => BytecodeModel::Asin,
        SpecialFunction::Acos => BytecodeModel::Acos,
        SpecialFunction::Atan => BytecodeModel::Atan,
        SpecialFunction::Acot => BytecodeModel::Acot,
        SpecialFunction::Asec => BytecodeModel::Asec,
        SpecialFunction::Acsc => BytecodeModel::Acsc,
        SpecialFunction::Pow => BytecodeModel::Pow,
        SpecialFunction::Fact => BytecodeModel::Fact,
        SpecialFunction::LogBase => BytecodeModel::LogBase,
        SpecialFunction::Floor => BytecodeModel::Floor,
        SpecialFunction::Rand => BytecodeModel::Rand,
        SpecialFunction::RandInt => BytecodeModel::RandInt,
    }
}

/// True of an assignment, which consumes its own value when compiled as a
/// statement.
pub open spec fn is_assign(e: ExprModel) -> bool {
    e is Assign
}

/// The bytecode of one expression, or the first compile error in it, reading
/// left to right.
pub open spec fn compile_model(e: ExprModel) -> Result<Seq<BytecodeModel>, CompileError>
    decreases e,
{
    match e {
        ExprModel::Number(t) => Ok(seq![BytecodeModel::PushNumber(t)]),
        ExprModel::Ident(n) => Ok(seq![BytecodeModel::LoadVar(n)]),
        ExprModel::Assign { name, expr } => match compile_model(*expr) {
            Ok(ms) => Ok(ms + seq![BytecodeModel::StoreVar(name)]),
            Err(e2) => Err(e2),
        },
        ExprModel::BinaryOp { left, op, right } => match compile_model(*left) {
            Ok(lm) => match compile_model(*right) {
                Ok(rm) => Ok(lm + rm + seq![op_instr(op)]),
                Err(e2) => Err(e2),
            },
            Err(e2) => Err(e2),
        },
        ExprModel::Function { func, arg } => {
            if func == SpecialFunction::Rand {
                Ok(seq![BytecodeModel::Rand])
            } else if func == SpecialFunction::RandInt || func == SpecialFunction::LogBase {
                // These take exactly two arguments, which the parser wraps
                // into a sequence.
                let err = if func == SpecialFunction::RandInt {
                    CompileError::RandIntArity
                } else {
                    CompileError::LogBaseArity
                };
                match *arg {
                    ExprModel::Sequence(items) => if items.len() == 2 {
                        match compile_model(items[0]) {
                            Ok(m0) => match compile_model(items[1]) {
                                Ok(m1) => Ok(m0 + m1 + seq![fun_instr(func)]),
                                Err(e2) => Err(e2),
                            },
                            Err(e2) => Err(e2),
                        }
                    } else {
                        Err(err)
                    },
                    _ => Err(err),
                }
            } else {
                match compile_model(*arg) {
                    Ok(ms) => Ok(ms + seq![fun_instr(func)]),
                    Err(e2) => Err(e2),
                }
            }
        },
        // Function definitions are captured by the parser; they emit no code.
        ExprModel::FunctionDef { .. } => Ok(Seq::empty()),
        ExprModel::FunctionCall { name, arg } => match compile_model(*arg) {
            Ok(ms) => Ok(ms + seq![BytecodeModel::CallUserFunction(name)]),
            Err(e2) => Err(e2),
        },
        ExprModel::Sequence(items) => compile_seq(items),
        ExprModel::Sum { from, to, param, body } => match compile_model(*from) {
            Ok(fm) => match compile_model(*to) {
                Ok(tm) => match compile_model(*body) {
                    Ok(bm) => Ok(
                        seq![BytecodeModel::SumLoop { from: fm, to: tm, param, body: bm }],
                    ),
                    Err(e2) => Err(e2),
                },
                Err(e2) => Err(e2),
            },
            Err(e2) => Err(e2),
        },
        ExprModel::Product { from, to, param, body } => match compile_model(*from) {
            Ok(fm) => match compile_model(*to) {
                Ok(tm) => match compile_model(*body) {
                    Ok(bm) => Ok(
                        seq![BytecodeModel::ProductLoop { from: fm, to: tm, param, body: bm }],
                    ),
                    Err(e2) => Err(e2),
                },
                Err(e2) => Err(e2),
            },
            Err(e2) => Err(e2),
        },
    }
}

/// The bytecode of a statement sequence: every element but the last is
/// followed, unless it is an assignment, by a scratch store that discards
/// its value.
pub open spec fn compile_seq(items: Seq<ExprModel>) -> Result<Seq<BytecodeModel>, CompileError>
    decreases items,
{
    if items.len() == 0 {
        Ok(Seq::empty())
    } else {
        match compile_front(items.drop_last()) {
            Ok(ms) => match compile_model(items.last()) {
                Ok(ml) => Ok(ms + ml),
                Err(e2) => Err(e2),
            },
            Err(e2) => Err(e2),
        }
    }
}

/// The bytecode of the non-final statements of a sequence, each with its
/// discarding store where needed.
pub open spec fn compile_front(items: Seq<ExprModel>) -> Result<Seq<BytecodeModel>, CompileError>
    decreases items,
{
    if items.len() == 0 {
        Ok(Seq::empty())
    } else {
        match compile_front(items.drop_last()) {
            Ok(ms) => match compile_model(items.last()) {
                Ok(ml) => if is_assign(items.last()) {
                    Ok(ms + ml)
                } else {
                    Ok(ms + ml + seq![store_tmp()])
                },
                Err(e2) => Err(e2),
            },
            Err(e2) => Err(e2),
        }
    }
}

/// An error in an element surfaces as the sequence's error when everything
/// before the element compiles.
proof fn lemma_compile_front_err(items: Seq<ExprModel>, i: int, e: CompileError)
    requires
        0 <= i < items.len(),
        compile_front(items.take(i)) is Ok,
        compile_model(items[i]) == Err::<Seq<BytecodeModel>, CompileError>(e),
    ensures
        compile_front(items) == Err::<Seq<BytecodeModel>, CompileError>(e),
    decreases items.len(),
{
    let init = items.drop_last();
    if i == items.len() - 1 {
        assert(items.take(i) =~= init);
    } else {
        assert(init.take(i) =~= items.take(i));
        assert(init[i] == items[i]);
        lemma_compile_front_err(init, i, e);
    }
}

/// The same, for the whole sequence.
proof fn lemma_compile_seq_err(items: Seq<ExprModel>, i: int, e: CompileError)
    requires
        0 <= i < items.len(),
        compile_front(items.take(i)) is Ok,
        compile_model(items[i]) == Err::<Seq<BytecodeModel>, CompileError>(e),
    ensures
        compile_seq(items) == Err::<Seq<BytecodeModel>, CompileError>(e),
{
    let init = items.drop_last();
    if i == items.len() - 1 {
        assert(items.take(i) =~= init);
    } else {
        assert(init.take(i) =~= items.take(i));
        assert(init[i] == items[i]);
        lemma_compile_front_err(init, i, e);
    }
}

/// Compiles one expression, appending its bytecode to `program`.  Returns
/// the first compile error, reading left to right, and exactly when
/// `compile_model` has one; the program's previous contents are untouched on
/// success.
pub fn compile(expr: &Expr, program: &mut Program) -> (r: Result<(), CompileError>)
    ensures
        match r {
            Ok(_) => compile_model(expr_model(*expr)) matches Ok(ms) && prog_model(
                final(program)@,
            ) == prog_model(old(program)@) + ms,
            Err(e) => compile_model(expr_model(*expr)) == Err::<
                Seq<BytecodeModel>,
                CompileError,
            >(e),
        },
    decreases *expr, 0int,
{
    match expr {
        Expr::Number(t) => {
            let ghost p0 = program@;
            program.push(Bytecode::PushNumber(t.clone()));
            proof {
                lemma_prog_snoc(p0, program@);
            }
            Ok(())
        },
        Expr::Ident(n) => {
            let ghost p0 = program@;
            program.push(Bytecode::LoadVar(n.clone()));
            proof {
                lemma_prog_snoc(p0, program@);
            }
            Ok(())
        },
        Expr::Assign { name, expr: e } => {
            compile(e, program)?;
            let ghost p0 = program@;
            program.push(Bytecode::StoreVar(name.clone()));
            proof {
                lemma_prog_snoc(p0, program@);
                assert(prog_model(program@) =~= prog_model(old(program)@) + (
                compile_model(expr_model(**e))->Ok_0 + seq![
                    BytecodeModel::StoreVar(name@),
                ]));
            }
            Ok(())
        },
        Expr::BinaryOp { left, op, right } => {
            compile(left, program)?;
            compile(right, program)?;
            let ghost p0 = program@;
            program.push(op_bytecode(*op));
            proof {
                lemma_prog_snoc(p0, program@);
                assert(prog_model(program@) =~= prog_model(old(program)@) + (
                compile_model(expr_model(**left))->Ok_0 + compile_model(expr_model(**right))->Ok_0
                    + seq![op_instr(*op)]));
            }
            Ok(())
        },
        Expr::Function { func, arg } => compile_function(*func, arg, program),
        Expr::FunctionDef { .. } => Ok(()),
        Expr::FunctionCall { name, arg } => {
            compile(arg, program)?;
            let ghost p0 = program@;
            program.push(Bytecode::CallUserFunction(name.clone()));
            proof {
                lemma_prog_snoc(p0, program@);
                assert(prog_model(program@) =~= prog_model(old(program)@) + (
                compile_model(expr_model(**arg))->Ok_0 + seq![
                    BytecodeModel::CallUserFunction(name@),
                ]));
            }
            Ok(())
        },
        Expr::Sequence(v) => compile_sequence(v, program),
        Expr::Sum { from, to, param, body } => {
            proof {
                assert(decreases_to!(*expr => **from));
                assert(decreases_to!(*expr => **to));
                assert(decreases_to!(*expr => **body));
            }
            let mut fp: Vec<Bytecode> = Vec::new();
            compile(from, &mut fp)?;
            let mut tp: Vec<Bytecode> = Vec::new();
            compile(to, &mut tp)?;
            let mut bp: Vec<Bytecode> = Vec::new();
            compile(body, &mut bp)?;
            let ghost p0 = program@;
            program.push(
                Bytecode::SumLoop { from: fp, to: tp, param: param.clone(), body: bp },
            );
            proof {
                lemma_prog_snoc(p0, program@);
            }
            Ok(())
        },
        Expr::Product { from, to, param, body } => {
            proof {
                assert(decreases_to!(*expr => **from));
                assert(decreases_to!(*expr => **to));
                assert(decreases_to!(*expr => **body));
            }
            let mut fp: Vec<Bytecode> = Vec::new();
            compile(from, &mut fp)?;
            let mut tp: Vec<Bytecode> = Vec::new();
            compile(to, &mut tp)?;
            let mut bp: Vec<Bytecode> = Vec::new();
            compile(body, &mut bp)?;
            let ghost p0 = program@;
            program.push(
                Bytecode::ProductLoop { from: fp, to: tp, param: param.clone(), body: bp },
            );
            proof {
                lemma_prog_snoc(p0, program@);
            }
            Ok(())
        },
    }
}

/// One more instruction at the end of a program, in the model.
proof fn lemma_prog_snoc(p0: Seq<Bytecode>, p1: Seq<Bytecode>)
    requires
        p1.len() == p0.len() + 1,
        forall|j: int| 0 <= j < p0.len() ==> p1[j] == p0[j],
    ensures
        prog_model(p1) == prog_model(p0) + seq![bc_model(p1.last())],
{
    lemma_prog_model_len(p0);
    lemma_prog_model_len(p1);
    assert forall|j: int| 0 <= j < p1.len() implies prog_model(p1)[j] == (prog_model(p0) + seq![
        bc_model(p1.last()),
    ])[j] by {
        if j < p0.len() {
            assert(p1[j] == p0[j]);
        }
    }
    assert(prog_model(p1) =~= prog_model(p0) + seq![bc_model(p1.last())]);
}

/// The executable twin of `op_instr`.
fn op_bytecode(op: BinaryOperator) -> (r: Bytecode)
    ensures
        bc_model(r) == op_instr(op),
{
    match op {
        BinaryOperator::Plus => Bytecode::Add,
        BinaryOperator::Minus => Bytecode::Sub,
        BinaryOperator::Star => Bytecode::Mul,
        BinaryOperator::Slash => Bytecode::Div,
        BinaryOperator::Pow => Bytecode::Pow,
    }
}

/// The executable twin of `fun_instr`.
fn fun_bytecode(f: SpecialFunction) -> (r: Bytecode)
    ensures
        bc_model(r) == fun_instr(f),
{
    match f {
        SpecialFunction::Sin => Bytecode::Sin,
        SpecialFunction::Cos => Bytecode::Cos,
        SpecialFunction::Tan => Bytecode::Tan,
        SpecialFunction::Cot => Bytecode::Cot,
        SpecialFunction::Sec => Bytecode::Sec,
        SpecialFunction::Csc => Bytecode::Csc,
        SpecialFunction::Sinh => Bytecode::Sinh,
        SpecialFunction::Cosh => Bytecode::Cosh,
        SpecialFunction::Tanh => Bytecode::Tanh,
        SpecialFunction::Asinh => Bytecode::Asinh,
        SpecialFunction::Acosh => Bytecode::Acosh,
        SpecialFunction::Atanh => Bytecode::Atanh,
        SpecialFunction::Exp => Bytecode::Exp,
        SpecialFunction::Log => Bytecode::Log,
        SpecialFunction::Log10 => Bytecode::Log10,
        SpecialFunction::Log2 => Bytecode::Log2,
        SpecialFunction::Sqrt => Bytecode::Sqrt,
        SpecialFunction::Abs => Bytecode::Abs,
        SpecialFunction::Asin => Bytecode::Asin,
        SpecialFunction::Acos => Bytecode::Acos,
        SpecialFunction::Atan => Bytecode::Atan,
        SpecialFunction::Acot => Bytecode::Acot,
        SpecialFunction::Asec => Bytecode::Asec,
        SpecialFunction::Acsc => Bytecode::Acsc,
        SpecialFunction::Pow => Bytecode::Pow,
        SpecialFunction::Fact => Bytecode::Fact,
        SpecialFunction::LogBase => Bytecode::LogBase,
        SpecialFunction::Floor => Bytecode::Floor,
        SpecialFunction::Rand => Bytecode::Rand,
        SpecialFunction::RandInt => Bytecode::RandInt,
    }
}

/// Compiles a built-in function application.
fn compile_function(func: SpecialFunction, arg: &Expr, program: &mut Program) -> (r: Result<
    (),
    CompileError,
>)
    ensures
        match r {
            Ok(_) => compile_model(
                ExprModel::Function { func, arg: Box::new(expr_model(*arg)) },
            ) matches Ok(ms) && prog_model(final(program)@) == prog_model(old(program)@) + ms,
            Err(e) => compile_model(ExprModel::Function { func, arg: Box::new(expr_model(*arg)) })
                == Err::<Seq<BytecodeModel>, CompileError>(e),
        },
    decreases *arg, 1int,
{
    if matches!(func, SpecialFunction::Rand) {
        let ghost p0 = program@;
        program.push(Bytecode::Rand);
        proof {
            lemma_prog_snoc(p0, program@);
        }
        return Ok(());
    }
    if matches!(func, SpecialFunction::RandInt) || matches!(func, SpecialFunction::LogBase) {
        let err = if matches!(func, SpecialFunction::RandInt) {
            CompileError::RandIntArity
        } else {
            CompileError::LogBaseArity
        };
        match arg {
            Expr::Sequence(items) => {
                if items.len() != 2 {
                    proof {
                        lemma_exprs_model_len(items@);
                    }
                    return Err(err);
                }
                proof {
                    lemma_exprs_model_len(items@);
                    assert(decreases_to!(*arg => items@[0]));
                    assert(decreases_to!(*arg => items@[1]));
                }
                compile(&items[0], program)?;
                compile(&items[1], program)?;
                let ghost p0 = program@;
                program.push(fun_bytecode(func));
                proof {
                    lemma_prog_snoc(p0, program@);
                    assert(prog_model(program@) =~= prog_model(old(program)@) + (
                    compile_model(exprs_model(items@)[0])->Ok_0 + compile_model(
                        exprs_model(items@)[1],
                    )->Ok_0 + seq![fun_instr(func)]));
                }
                Ok(())
            },
            _ => Err(err),
        }
    } else {
        compile(arg, program)?;
        let ghost p0 = program@;
        program.push(fun_bytecode(func));
        proof {
            lemma_prog_snoc(p0, program@);
            assert(prog_model(program@) =~= prog_model(old(program)@) + (
            compile_model(expr_model(*arg))->Ok_0 + seq![fun_instr(func)]));
        }
        Ok(())
    }
}

/// Compiles a statement sequence.
fn compile_sequence(v: &Vec<Expr>, program: &mut Program) -> (r: Result<
    (),
    CompileError,
>)
    ensures
        match r {
            Ok(_) => compile_seq(exprs_model(v@)) matches Ok(ms) && prog_model(final(program)@)
                == prog_model(old(program)@) + ms,
            Err(e) => compile_seq(exprs_model(v@)) == Err::<Seq<BytecodeModel>, CompileError>(e),
        },
    decreases *v, 0int,
{
    let ghost items = exprs_model(v@);
    proof {
        lemma_exprs_model_len(v@);
    }
    if v.len() == 0 {
        proof {
            assert(items =~= Seq::<ExprModel>::empty());
        }
        return Ok(());
    }
    let mut i: usize = 0;
    while i < v.len()
        invariant
            0 <= i <= v@.len(),
            items == exprs_model(v@),
            items.len() == v@.len(),
            v@.len() > 0,
            forall|j: int| 0 <= j < v@.len() ==> items[j] == expr_model(#[trigger] v@[j]),
            compile_front(items.take(i as int)) is Ok,
            i < v@.len() ==> prog_model(program@) == prog_model(old(program)@) + compile_front(
                items.take(i as int),
            )->Ok_0,
            i == v@.len() ==> (compile_seq(items) matches Ok(ms) && prog_model(program@)
                == prog_model(old(program)@) + ms),
        decreases v@.len() - i,
    {
        proof {
            assert(decreases_to!(*v => v@[i as int]));
        }
        let ghost p_before = program@;
        let r = compile(&v[i], program);
        match r {
            Ok(_) => {},
            Err(e) => {
                proof {
                    lemma_compile_seq_err(items, i as int, e);
                }
                return Err(e);
            },
        }
        let ghost em = compile_model(items[i as int])->Ok_0;
        if i + 1 != v.len() {
            if !matches!(v[i], Expr::Assign { .. }) {
                let ghost p0 = program@;
                program.push(Bytecode::StoreVar(String::from_str("_tmp")));
                proof {
                    lemma_prog_snoc(p0, program@);
                }
            }
        }
        proof {
            let t1 = items.take(i + 1int);
            assert(t1.drop_last() =~= items.take(i as int));
            assert(t1.last() == items[i as int]);
            if i + 1 < v@.len() {
                if is_assign(items[i as int]) {
                    assert(prog_model(program@) =~= prog_model(old(program)@) + (compile_front(
                        items.take(i as int),
                    )->Ok_0 + em));
                } else {
                    assert(prog_model(program@) =~= prog_model(old(program)@) + (compile_front(
                        items.take(i as int),
                    )->Ok_0 + em + seq![store_tmp()]));
                }
            } else {
                assert(items.take(v@.len() as int) =~= items);
                assert(items.drop_last() =~= items.take(i as int));
                assert(prog_model(program@) =~= prog_model(old(program)@) + (compile_front(
                    items.take(i as int),
                )->Ok_0 + em));
            }
        }
        i = i + 1;
    }
    Ok(())
}

} // verus!
