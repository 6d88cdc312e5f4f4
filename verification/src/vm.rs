//! The virtual machine.
//!
//! The machine executes compiled programs and, for user-function bodies,
//! walks expression trees directly.  It owns the value stack, the variable
//! environment and the control stack, and it decides every error and every
//! control transfer — but it never computes with floating-point values.
//! Whenever a numeric primitive is needed (turning a literal into a number,
//! arithmetic, a named math function, rounding a loop bound to an integer,
//! drawing a random value), `step` returns `Outcome::Need(query)` and the
//! caller answers on the next call.  Numbers are carried opaquely as the
//! 64-bit IEEE-754 bit patterns the host hands back.
//!
//! `step` is total and deterministic: its whole behaviour, for every state
//! and every answer, is stated by `step_rel`.

use vstd::prelude::*;
use vstd::hash_map::StringHashMap;
use crate::ast::{Expr, expr_model, exprs_model};
use crate::bytecode::{Bytecode, BytecodeModel, Program, bc_model, prog_model, duplicate_prog};
use crate::lexer::{BinaryOperator, SpecialFunction};
use crate::table::FunctionTable;

verus! {

/// The bit pattern of the floating-point value zero, the sum identity.
pub const ZERO_BITS: u64 = 0;

/// The bit pattern of the floating-point value one, the product identity.
pub const ONE_BITS: u64 = 0x3FF0000000000000;

/// Run-time errors.
#[derive(Debug, Clone, Copy, PartialEq, Eq, Structural)]
pub enum ErrorKind {
    /// An instruction needed more operands than the stack holds.
    StackUnderflow,
    /// A loaded variable is not bound.
    VariableNotFound,
    /// A variable read in a user-function body is not bound.
    VariableNotFoundInBody,
    /// A called user function is not defined.
    FunctionNotFound,
    /// A user function called from a user-function body is not defined.
    FunctionNotFoundInBody,
    /// The bounds given to the random-integer primitive leave no integer.
    InvalidRandIntRange,
    /// Execution finished with an empty stack: no result was produced.
    NoResult,
    /// A function definition appeared inside a user-function body.
    NestedFunctionDef,
    /// The two-argument logarithm is not supported in user-function bodies.
    LogBaseInBody,
    /// The random-integer primitive is not supported in user-function bodies.
    RandIntInBody,
    /// The caller answered a query the machine did not ask, or stayed silent
    /// when an answer was due.
    UnexpectedAnswer,
}

/// A numeric primitive the machine asks its caller to compute.
#[derive(Debug, PartialEq, Eq)]
pub enum Query {
    /// The floating-point value of a numeric literal, as bits.
    ParseNumber(String),
    /// A binary arithmetic operation on two numbers.
    BinOp(BinaryOperator, u64, u64),
    /// A one-argument named function (sine, factorial, floor, ...).
    Fun1(SpecialFunction, u64),
    /// The base-`a` logarithm of `b`, for `LogBase(a, b)`.
    LogBase(u64, u64),
    /// A fresh random number from the unit range.
    Rand,
    /// Whether the first number is less than or equal to the second.
    LeNum(u64, u64),
    /// The ceiling of the number, saturated to a 64-bit integer.
    CeilInt(u64),
    /// The floor of the number, saturated to a 64-bit integer.
    FloorInt(u64),
    /// A uniformly distributed integer from the inclusive range.
    RandIntDraw(i64, i64),
    /// The floating-point value of the integer, as bits.
    IntToNum(i64),
}

/// The caller's answer to a query.
#[derive(Debug, Clone, Copy, PartialEq, Eq, Structural)]
pub enum Answer {
    Num(u64),
    Int(i64),
    Bool(bool),
}

/// What one step of the machine produced.
#[derive(Debug, PartialEq, Eq)]
pub enum Outcome {
    /// The machine did internal work; call `step` again with no answer.
    Running,
    /// The machine needs the query computed; call `step` with the answer.
    Need(Query),
    /// Execution finished with this result (bits of a number).
    Done(u64),
    /// Execution failed.
    Failed(ErrorKind),
}

/// The source of a loop bound or body: a compiled sub-program, or an
/// expression tree when the loop stands in a user-function body.
#[derive(Debug, PartialEq, Eq)]
pub enum LoopSrc {
    Code(Vec<Bytecode>),
    Tree(Expr),
}

/// What a running loop keeps across its phases.
#[derive(Debug, PartialEq, Eq)]
pub struct LoopCtx {
    /// True for summation, false for product.
    pub is_sum: bool,
    /// The loop parameter's name.
    pub param: String,
    /// The upper-bound source, evaluated after the lower bound.
    pub to: LoopSrc,
    /// The body source, evaluated once per iteration.
    pub body: LoopSrc,
    /// The value-stack height at loop entry.
    pub base: usize,
}

/// One control-stack frame.
#[derive(Debug, PartialEq, Eq)]
pub enum Frame {
    /// Executes a (sub-)program from `pc` on; `base` is the stack height the
    /// sub-program started at.
    Run { prog: Vec<Bytecode>, pc: usize, base: usize },
    /// Evaluates one expression (user-function bodies).
    EvalExpr { expr: Expr },
    /// Awaits a number and pushes it.
    PushAwait,
    /// Awaits nothing: applies the operator to the two topmost values.
    Bin2 { op: BinaryOperator },
    /// Applies the named function to the topmost value.
    Apply1 { func: SpecialFunction },
    /// Stores the topmost value (kept on the stack) under the name.
    Assign2 { name: String },
    /// Evaluates the elements of a sequence in order; only the last value
    /// stays.
    SeqNext { exprs: Vec<Expr>, idx: usize },
    /// Calls the named user function on the topmost value.
    CallArg { name: String },
    /// Restores the parameter binding after a user-function body returned.
    CallRet { param: String, saved: Option<u64> },
    /// The lower bound of a loop is being computed.
    LoopFrom { ctx: LoopCtx },
    /// Awaits the lower bound rounded up to an integer.
    LoopCeil { ctx: LoopCtx },
    /// The upper bound of a loop is being computed.
    LoopTo { ctx: LoopCtx, lo: i64 },
    /// Awaits the upper bound rounded down to an integer.
    LoopFloor { ctx: LoopCtx, lo: i64 },
    /// Awaits the bits of the iteration counter, to bind the parameter.
    LoopBind { ctx: LoopCtx, hi: i64, i: i64, acc: u64 },
    /// The body of the current iteration is being computed.
    LoopBody { ctx: LoopCtx, hi: i64, i: i64, acc: u64, saved: Option<u64> },
    /// Awaits the new accumulator value.
    LoopAcc { ctx: LoopCtx, hi: i64, i: i64 },
    /// Awaits the order of the two random-integer bounds.
    RandIntCmp { a: u64, b: u64 },
    /// Awaits the lower random-integer bound; `amax` still needs rounding.
    RandIntLo { amax: u64 },
    /// Awaits the upper random-integer bound.
    RandIntHi { lo: i64 },
    /// Awaits the drawn random integer.
    RandIntVal,
}

/// The machine.
pub struct Machine {
    /// The user-function table, fixed for the whole run.
    pub funcs: FunctionTable,
    /// The shared variable environment (values are number bits).
    pub env: StringHashMap<u64>,
    /// The value stack (number bits).
    pub vals: Vec<u64>,
    /// The control stack; the last frame acts next.
    pub ctrl: Vec<Frame>,
    /// Set once execution finished or failed; later steps repeat it.
    pub fin: Option<Result<u64, ErrorKind>>,
}

/// The identity the loop accumulator starts from: zero for a sum, one for
/// a product (as bits).
pub open spec fn identity_bits(is_sum: bool) -> u64 {
    if is_sum {
        ZERO_BITS
    } else {
        ONE_BITS
    }
}

/// The machine failed with `k`: the failure is recorded and reported.
pub open spec fn failed_rel(post: Machine, out: Outcome, k: ErrorKind) -> bool {
    &&& post.fin == Some(Result::<u64, ErrorKind>::Err(k))
    &&& out == Outcome::Failed(k)
}

/// What does not change in a non-final step.
pub open spec fn keep(pre: Machine, post: Machine) -> bool {
    &&& post.funcs == pre.funcs
    &&& post.fin is None
}

/// `fr` computes the loop bound or body `src`, over stack height `base`.
pub open spec fn child_of_src(fr: Frame, src: LoopSrc, base: usize) -> bool {
    match src {
        LoopSrc::Code(p) => fr matches Frame::Run { prog, pc, base: b } && prog_model(prog@)
            == prog_model(p@) && pc == 0 && b == base,
        LoopSrc::Tree(e) => fr matches Frame::EvalExpr { expr } && expr_model(expr) == expr_model(
            e,
        ),
    }
}

/// The save/restore discipline is sound: binding a name after saving its
/// previous state, then restoring that state, leaves the environment as it
/// was.  This is what makes parameter shadowing in user-function calls and
/// loop iterations invisible from outside (`step_rel`'s `CallRet` and
/// `LoopBody` cases restore with exactly `saved_of`'s value).
pub proof fn lemma_bind_restore(env: Map<Seq<char>, u64>, name: Seq<char>, v: u64)
    ensures
        restore_env(env.insert(name, v), name, saved_of(env, name)) == env,
{
    match saved_of(env, name) {
        Some(w) => {
            assert(env.insert(name, v).insert(name, w) =~= env);
        },
        None => {
            assert(env.insert(name, v).remove(name) =~= env);
        },
    }
}

/// The behaviour of a step taken while no answer is due.
pub open spec fn quiet_rel(pre: Machine, post: Machine, out: Outcome) -> bool {
    if pre.ctrl@.len() == 0 {
        // Execution ended: the remaining top value is the result.
        if pre.vals@.len() > 0 {
            post.fin == Some(Result::<u64, ErrorKind>::Ok(pre.vals@.last())) && out
                == Outcome::Done(pre.vals@.last())
        } else {
            failed_rel(post, out, ErrorKind::NoResult)
        }
    } else {
        let stem = pre.ctrl@.drop_last();
        match pre.ctrl@.last() {
            Frame::Run { prog, pc, base } => run_rel(pre, post, out, prog, pc, base),
            Frame::EvalExpr { expr } => eval_rel(pre, post, out, expr),
            Frame::Bin2 { op } => {
                if pre.vals@.len() >= 2 {
                    &&& keep(pre, post)
                    &&& post.env == pre.env
                    &&& post.vals@ == pre.vals@.take(pre.vals@.len() - 2)
                    &&& post.ctrl@ == stem.push(Frame::PushAwait)
                    &&& out == Outcome::Need(
                        Query::BinOp(op, pre.vals@[pre.vals@.len() - 2], pre.vals@.last()),
                    )
                } else {
                    failed_rel(post, out, ErrorKind::StackUnderflow)
                }
            },
            Frame::Apply1 { func } => {
                if pre.vals@.len() == 0 {
                    failed_rel(post, out, ErrorKind::StackUnderflow)
                } else if func == SpecialFunction::LogBase {
                    failed_rel(post, out, ErrorKind::LogBaseInBody)
                } else if func == SpecialFunction::RandInt {
                    failed_rel(post, out, ErrorKind::RandIntInBody)
                } else if func == SpecialFunction::Rand {
                    // The argument was evaluated and is discarded.
                    &&& keep(pre, post)
                    &&& post.env == pre.env
                    &&& post.vals@ == pre.vals@.drop_last()
                    &&& post.ctrl@ == stem.push(Frame::PushAwait)
                    &&& out == Outcome::Need(Query::Rand)
                } else if func == SpecialFunction::Pow {
                    // Mirrors the evaluator: a one-argument power application
                    // returns its argument unchanged.
                    &&& keep(pre, post)
                    &&& post.env == pre.env
                    &&& post.vals@ == pre.vals@
                    &&& post.ctrl@ == stem
                    &&& out == Outcome::Running
                } else {
                    &&& keep(pre, post)
                    &&& post.env == pre.env
                    &&& post.vals@ == pre.vals@.drop_last()
                    &&& post.ctrl@ == stem.push(Frame::PushAwait)
                    &&& out == Outcome::Need(Query::Fun1(func, pre.vals@.last()))
                }
            },
            Frame::Assign2 { name } => {
                if pre.vals@.len() == 0 {
                    failed_rel(post, out, ErrorKind::StackUnderflow)
                } else {
                    // An assignment keeps its value on the stack.
                    &&& keep(pre, post)
                    &&& post.env@ == pre.env@.insert(name@, pre.vals@.last())
                    &&& post.vals@ == pre.vals@
                    &&& post.ctrl@ == stem
                    &&& out == Outcome::Running
                }
            },
            Frame::SeqNext { exprs, idx } => seq_rel(pre, post, out, exprs, idx),
            Frame::CallArg { name } => {
                if pre.vals@.len() == 0 {
                    failed_rel(post, out, ErrorKind::StackUnderflow)
                } else if !pre.funcs@.contains_key(name@) {
                    failed_rel(post, out, ErrorKind::FunctionNotFoundInBody)
                } else {
                    let d = pre.funcs@[name@];
                    let arg = pre.vals@.last();
                    &&& keep(pre, post)
                    &&& post.env@ == pre.env@.insert(d.param, arg)
                    &&& post.vals@ == pre.vals@.drop_last()
                    &&& post.ctrl@.len() == pre.ctrl@.len() + 1
                    &&& post.ctrl@.subrange(0, pre.ctrl@.len() - 1) == stem
                    &&& (post.ctrl@[pre.ctrl@.len() - 1] matches Frame::CallRet { param, saved }
                        && param@ == d.param && saved == saved_of(pre.env@, d.param))
                    &&& (post.ctrl@[pre.ctrl@.len() as int] matches Frame::EvalExpr { expr }
                        && expr_model(expr) == d.body)
                    &&& out == Outcome::Running
                }
            },
            Frame::CallRet { param, saved } => {
                &&& keep(pre, post)
                &&& post.env@ == restore_env(pre.env@, param@, saved)
                &&& post.vals@ == pre.vals@
                &&& post.ctrl@ == stem
                &&& out == Outcome::Running
            },
            Frame::LoopFrom { ctx } => {
                if pre.vals@.len() <= ctx.base {
                    failed_rel(post, out, ErrorKind::NoResult)
                } else {
                    &&& keep(pre, post)
                    &&& post.env == pre.env
                    &&& post.vals@ == pre.vals@.take(ctx.base as int)
                    &&& post.ctrl@ == stem.push(Frame::LoopCeil { ctx })
                    &&& out == Outcome::Need(Query::CeilInt(pre.vals@.last()))
                }
            },
            Frame::LoopTo { ctx, lo } => {
                if pre.vals@.len() <= ctx.base {
                    failed_rel(post, out, ErrorKind::NoResult)
                } else {
                    &&& keep(pre, post)
                    &&& post.env == pre.env
                    &&& post.vals@ == pre.vals@.take(ctx.base as int)
                    &&& post.ctrl@ == stem.push(Frame::LoopFloor { ctx, lo })
                    &&& out == Outcome::Need(Query::FloorInt(pre.vals@.last()))
                }
            },
            Frame::LoopBody { ctx, hi, i, acc, saved } => {
                if pre.vals@.len() <= ctx.base {
                    failed_rel(post, out, ErrorKind::NoResult)
                } else {
                    let op = if ctx.is_sum {
                        BinaryOperator::Plus
                    } else {
                        BinaryOperator::Star
                    };
                    &&& keep(pre, post)
                    &&& post.env@ == restore_env(pre.env@, ctx.param@, saved)
                    &&& post.vals@ == pre.vals@.take(ctx.base as int)
                    &&& post.ctrl@ == stem.push(Frame::LoopAcc { ctx, hi, i })
                    &&& out == Outcome::Need(Query::BinOp(op, acc, pre.vals@.last()))
                }
            },
            // A query is pending: silence is a protocol violation.
            _ => failed_rel(post, out, ErrorKind::UnexpectedAnswer),
        }
    }
}

/// The previous binding of `name`, as the save/restore discipline records it.
pub open spec fn saved_of(env: Map<Seq<char>, u64>, name: Seq<char>) -> Option<u64> {
    if env.contains_key(name) {
        Some(env[name])
    } else {
        None
    }
}

/// The environment after a saved binding is put back: the old value is
/// re-bound, or the name is unbound when there was none.
pub open spec fn restore_env(env: Map<Seq<char>, u64>, name: Seq<char>, saved: Option<u64>) -> Map<
    Seq<char>,
    u64,
> {
    match saved {
        Some(v) => env.insert(name, v),
        None => env.remove(name),
    }
}

/// The behaviour of one instruction of a running (sub-)program.
pub open spec fn run_rel(
    pre: Machine,
    post: Machine,
    out: Outcome,
    prog: Vec<Bytecode>,
    pc: usize,
    base: usize,
) -> bool {
    let stem = pre.ctrl@.drop_last();
    if pc >= prog@.len() {
        // The sub-program finished; the frame below acts next.
        &&& keep(pre, post)
        &&& post.env == pre.env
        &&& post.vals@ == pre.vals@
        &&& post.ctrl@ == stem
        &&& out == Outcome::Running
    } else {
        let cont = stem.push(Frame::Run { prog, pc: (pc + 1) as usize, base });
        match bc_model(prog@[pc as int]) {
            BytecodeModel::PushNumber(t) => {
                &&& keep(pre, post)
                &&& post.env == pre.env
                &&& post.vals@ == pre.vals@
                &&& post.ctrl@ == cont.push(Frame::PushAwait)
                &&& (out matches Outcome::Need(q) && q matches Query::ParseNumber(lit) && lit@
                    == t)
            },
            BytecodeModel::StoreVar(n) => {
                if pre.vals@.len() <= base {
                    failed_rel(post, out, ErrorKind::StackUnderflow)
                } else {
                    &&& keep(pre, post)
                    &&& post.env@ == pre.env@.insert(n, pre.vals@.last())
                    &&& post.vals@ == pre.vals@.drop_last()
                    &&& post.ctrl@ == cont
                    &&& out == Outcome::Running
                }
            },
            BytecodeModel::LoadVar(n) => {
                if pre.env@.contains_key(n) {
                    &&& keep(pre, post)
                    &&& post.env == pre.env
                    &&& post.vals@ == pre.vals@.push(pre.env@[n])
                    &&& post.ctrl@ == cont
                    &&& out == Outcome::Running
                } else {
                    failed_rel(post, out, ErrorKind::VariableNotFound)
                }
            },
            BytecodeModel::CallUserFunction(n) => {
                if pre.vals@.len() <= base {
                    failed_rel(post, out, ErrorKind::StackUnderflow)
                } else if !pre.funcs@.contains_key(n) {
                    failed_rel(post, out, ErrorKind::FunctionNotFound)
                } else {
                    let d = pre.funcs@[n];
                    &&& keep(pre, post)
                    &&& post.env@ == pre.env@.insert(d.param, pre.vals@.last())
                    &&& post.vals@ == pre.vals@.drop_last()
                    &&& post.ctrl@.len() == pre.ctrl@.len() + 2
                    &&& post.ctrl@.subrange(0, pre.ctrl@.len() as int) == cont
                    &&& (post.ctrl@[pre.ctrl@.len() as int] matches Frame::CallRet { param, saved }
                        && param@ == d.param && saved == saved_of(pre.env@, d.param))
                    &&& (post.ctrl@[pre.ctrl@.len() + 1int] matches Frame::EvalExpr { expr }
                        && expr_model(expr) == d.body)
                    &&& out == Outcome::Running
                }
            },
            BytecodeModel::SumLoop { from, to, param, body } => loop_start_code_rel(
                pre, post, out, cont, true, from, to, param, body,
            ),
            BytecodeModel::ProductLoop { from, to, param, body } => loop_start_code_rel(
                pre, post, out, cont, false, from, to, param, body,
            ),
            BytecodeModel::Rand => {
                &&& keep(pre, post)
                &&& post.env == pre.env
                &&& post.vals@ == pre.vals@
                &&& post.ctrl@ == cont.push(Frame::PushAwait)
                &&& out == Outcome::Need(Query::Rand)
            },
            BytecodeModel::RandInt => {
                if pre.vals@.len() <= base + 1 {
                    failed_rel(post, out, ErrorKind::StackUnderflow)
                } else {
                    let bv = pre.vals@.last();
                    let av = pre.vals@[pre.vals@.len() - 2];
                    &&& keep(pre, post)
                    &&& post.env == pre.env
                    &&& post.vals@ == pre.vals@.take(pre.vals@.len() - 2)
                    &&& post.ctrl@ == cont.push(Frame::RandIntCmp { a: av, b: bv })
                    &&& out == Outcome::Need(Query::LeNum(av, bv))
                }
            },
            BytecodeModel::LogBase => {
                if pre.vals@.len() <= base + 1 {
                    failed_rel(post, out, ErrorKind::StackUnderflow)
                } else {
                    let bv = pre.vals@.last();
                    let av = pre.vals@[pre.vals@.len() - 2];
                    &&& keep(pre, post)
                    &&& post.env == pre.env
                    &&& post.vals@ == pre.vals@.take(pre.vals@.len() - 2)
                    &&& post.ctrl@ == cont.push(Frame::PushAwait)
                    &&& out == Outcome::Need(Query::LogBase(av, bv))
                }
            },
            m => {
                // The binary arithmetic and the one-argument named functions.
                match binop_of_model(m) {
                    Some(op) => {
                        if pre.vals@.len() <= base + 1 {
                            failed_rel(post, out, ErrorKind::StackUnderflow)
                        } else {
                            let bv = pre.vals@.last();
                            let av = pre.vals@[pre.vals@.len() - 2];
                            &&& keep(pre, post)
                            &&& post.env == pre.env
                            &&& post.vals@ == pre.vals@.take(pre.vals@.len() - 2)
                            &&& post.ctrl@ == cont.push(Frame::PushAwait)
                            &&& out == Outcome::Need(Query::BinOp(op, av, bv))
                        }
                    },
                    None => match fun1_of_model(m) {
                        Some(f) => {
                            if pre.vals@.len() <= base {
                                failed_rel(post, out, ErrorKind::StackUnderflow)
                            } else {
                                &&& keep(pre, post)
                                &&& post.env == pre.env
                                &&& post.vals@ == pre.vals@.drop_last()
                                &&& post.ctrl@ == cont.push(Frame::PushAwait)
                                &&& out == Outcome::Need(Query::Fun1(f, pre.vals@.last()))
                            }
                        },
                        None => false,
                    },
                }
            },
        }
    }
}

/// The arithmetic operator an instruction stands for, if any.
pub open spec fn binop_of_model(m: BytecodeModel) -> Option<BinaryOperator> {
    match m {
        BytecodeModel::Add => Some(BinaryOperator::Plus),
        BytecodeModel::Sub => Some(BinaryOperator::Minus),
        BytecodeModel::Mul => Some(BinaryOperator::Star),
        BytecodeModel::Div => Some(BinaryOperator::Slash),
        BytecodeModel::Pow => Some(BinaryOperator::Pow),
        _ => None,
    }
}

/// The one-argument named function an instruction stands for, if any.
pub open spec fn fun1_of_model(m: BytecodeModel) -> Option<SpecialFunction> {
    match m {
        BytecodeModel::Sin => Some(SpecialFunction::Sin),
        BytecodeModel::Cos => Some(SpecialFunction::Cos),
        BytecodeModel::Tan => Some(SpecialFunction::Tan),
        BytecodeModel::Cot => Some(SpecialFunction::Cot),
        BytecodeModel::Sec => Some(SpecialFunction::Sec),
        BytecodeModel::Csc => Some(SpecialFunction::Csc),
        BytecodeModel::Sinh => Some(SpecialFunction::Sinh),
        BytecodeModel::Cosh => Some(SpecialFunction::Cosh),
        BytecodeModel::Tanh => Some(SpecialFunction::Tanh),
        BytecodeModel::Asinh => Some(SpecialFunction::Asinh),
        BytecodeModel::Acosh => Some(SpecialFunction::Acosh),
        BytecodeModel::Atanh => Some(SpecialFunction::Atanh),
        BytecodeModel::Exp => Some(SpecialFunction::Exp),
        BytecodeModel::Log => Some(SpecialFunction::Log),
        BytecodeModel::Log10 => Some(SpecialFunction::Log10),
        BytecodeModel::Log2 => Some(SpecialFunction::Log2),
        BytecodeModel::Sqrt => Some(SpecialFunction::Sqrt),
        BytecodeModel::Abs => Some(SpecialFunction::Abs),
        BytecodeModel::Asin => Some(SpecialFunction::Asin),
        BytecodeModel::Acos => Some(SpecialFunction::Acos),
        BytecodeModel::Atan => Some(SpecialFunction::Atan),
        BytecodeModel::Acot => Some(SpecialFunction::Acot),
        BytecodeModel::Asec => Some(SpecialFunction::Asec),
        BytecodeModel::Acsc => Some(SpecialFunction::Acsc),
        BytecodeModel::Fact => Some(SpecialFunction::Fact),
        BytecodeModel::Floor => Some(SpecialFunction::Floor),
        _ => None,
    }
}

/// A loop instruction starts: the lower bound runs first over the current
/// stack height; parameter name and sub-programs are carried along.
pub open spec fn loop_start_code_rel(
    pre: Machine,
    post: Machine,
    out: Outcome,
    cont: Seq<Frame>,
    is_sum: bool,
    from: Seq<BytecodeModel>,
    to: Seq<BytecodeModel>,
    param: Seq<char>,
    body: Seq<BytecodeModel>,
) -> bool {
    &&& keep(pre, post)
    &&& post.env == pre.env
    &&& post.vals@ == pre.vals@
    &&& post.ctrl@.len() == cont.len() + 2
    &&& post.ctrl@.subrange(0, cont.len() as int) == cont
    &&& (post.ctrl@[cont.len() as int] matches Frame::LoopFrom { ctx } && ctx.is_sum == is_sum
        && ctx.param@ == param && ctx.base == pre.vals@.len() && (ctx.to matches LoopSrc::Code(p)
        && prog_model(p@) == to) && (ctx.body matches LoopSrc::Code(p2) && prog_model(p2@) == body))
    &&& (post.ctrl@[cont.len() + 1int] matches Frame::Run { prog, pc, base } && prog_model(prog@)
        == from && pc == 0 && base == pre.vals@.len())
    &&& out == Outcome::Running
}

/// The behaviour of evaluating one expression node.
pub open spec fn eval_rel(pre: Machine, post: Machine, out: Outcome, expr: Expr) -> bool {
    let stem = pre.ctrl@.drop_last();
    match expr {
        Expr::Number(t) => {
            &&& keep(pre, post)
            &&& post.env == pre.env
            &&& post.vals@ == pre.vals@
            &&& post.ctrl@ == stem.push(Frame::PushAwait)
            &&& (out matches Outcome::Need(q) && q matches Query::ParseNumber(lit) && lit@ == t@)
        },
        Expr::Ident(n) => {
            if pre.env@.contains_key(n@) {
                &&& keep(pre, post)
                &&& post.env == pre.env
                &&& post.vals@ == pre.vals@.push(pre.env@[n@])
                &&& post.ctrl@ == stem
                &&& out == Outcome::Running
            } else {
                failed_rel(post, out, ErrorKind::VariableNotFoundInBody)
            }
        },
        Expr::Assign { name, expr: e } => {
            &&& keep(pre, post)
            &&& post.env == pre.env
            &&& post.vals@ == pre.vals@
            &&& post.ctrl@ == stem.push(Frame::Assign2 { name }).push(
                Frame::EvalExpr { expr: *e },
            )
            &&& out == Outcome::Running
        },
        Expr::BinaryOp { left, op, right } => {
            &&& keep(pre, post)
            &&& post.env == pre.env
            &&& post.vals@ == pre.vals@
            &&& post.ctrl@ == stem.push(Frame::Bin2 { op }).push(
                Frame::EvalExpr { expr: *right },
            ).push(Frame::EvalExpr { expr: *left })
            &&& out == Outcome::Running
        },
        Expr::Function { func, arg } => {
            &&& keep(pre, post)
            &&& post.env == pre.env
            &&& post.vals@ == pre.vals@
            &&& post.ctrl@ == stem.push(Frame::Apply1 { func }).push(
                Frame::EvalExpr { expr: *arg },
            )
            &&& out == Outcome::Running
        },
        Expr::FunctionDef { .. } => failed_rel(post, out, ErrorKind::NestedFunctionDef),
        Expr::FunctionCall { name, arg } => {
            &&& keep(pre, post)
            &&& post.env == pre.env
            &&& post.vals@ == pre.vals@
            &&& post.ctrl@ == stem.push(Frame::CallArg { name }).push(
                Frame::EvalExpr { expr: *arg },
            )
            &&& out == Outcome::Running
        },
        Expr::Sequence(v) => {
            &&& keep(pre, post)
            &&& post.env == pre.env
            &&& post.vals@ == pre.vals@
            &&& post.ctrl@ == stem.push(Frame::SeqNext { exprs: v, idx: 0 })
            &&& out == Outcome::Running
        },
        Expr::Sum { from, to, param, body } => loop_start_tree_rel(
            pre, post, out, stem, true, *from, *to, param, *body,
        ),
        Expr::Product { from, to, param, body } => loop_start_tree_rel(
            pre, post, out, stem, false, *from, *to, param, *body,
        ),
    }
}

/// A loop in a user-function body starts: like `loop_start_code_rel`, with
/// expression trees for the bounds and the body.
pub open spec fn loop_start_tree_rel(
    pre: Machine,
    post: Machine,
    out: Outcome,
    stem: Seq<Frame>,
    is_sum: bool,
    from: Expr,
    to: Expr,
    param: String,
    body: Expr,
) -> bool {
    &&& keep(pre, post)
    &&& post.env == pre.env
    &&& post.vals@ == pre.vals@
    &&& post.ctrl@ == stem.push(
        Frame::LoopFrom {
            ctx: LoopCtx {
                is_sum,
                param,
                to: LoopSrc::Tree(to),
                body: LoopSrc::Tree(body),
                base: (pre.vals@.len() as usize),
            },
        },
    ).push(Frame::EvalExpr { expr: from })
    &&& out == Outcome::Running
}

/// The behaviour of walking a sequence of expressions.
pub open spec fn seq_rel(
    pre: Machine,
    post: Machine,
    out: Outcome,
    exprs: Vec<Expr>,
    idx: usize,
) -> bool {
    let stem = pre.ctrl@.drop_last();
    if idx == 0 {
        if exprs@.len() == 0 {
            // An empty sequence evaluates to zero.
            &&& keep(pre, post)
            &&& post.env == pre.env
            &&& post.vals@ == pre.vals@.push(ZERO_BITS)
            &&& post.ctrl@ == stem
            &&& out == Outcome::Running
        } else {
            &&& keep(pre, post)
            &&& post.env == pre.env
            &&& post.vals@ == pre.vals@
            &&& post.ctrl@.len() == pre.ctrl@.len() + 1
            &&& post.ctrl@.subrange(0, pre.ctrl@.len() - 1) == stem
            &&& post.ctrl@[pre.ctrl@.len() - 1] == Frame::SeqNext { exprs, idx: 1usize }
            &&& (post.ctrl@[pre.ctrl@.len() as int] matches Frame::EvalExpr { expr }
                && expr_model(expr) == expr_model(exprs@[0]))
            &&& out == Outcome::Running
        }
    } else if idx < exprs@.len() {
        if pre.vals@.len() == 0 {
            failed_rel(post, out, ErrorKind::StackUnderflow)
        } else {
            // The previous element's value is discarded.
            &&& keep(pre, post)
            &&& post.env == pre.env
            &&& post.vals@ == pre.vals@.drop_last()
            &&& post.ctrl@.len() == pre.ctrl@.len() + 1
            &&& post.ctrl@.subrange(0, pre.ctrl@.len() - 1) == stem
            &&& post.ctrl@[pre.ctrl@.len() - 1] == Frame::SeqNext { exprs, idx: (idx + 1) as usize }
            &&& (post.ctrl@[pre.ctrl@.len() as int] matches Frame::EvalExpr { expr }
                && expr_model(expr) == expr_model(exprs@[idx as int]))
            &&& out == Outcome::Running
        }
    } else {
        // All elements done: the last value stays as the sequence's value.
        &&& keep(pre, post)
        &&& post.env == pre.env
        &&& post.vals@ == pre.vals@
        &&& post.ctrl@ == stem
        &&& out == Outcome::Running
    }
}

/// The behaviour of a step that consumes an answer.
pub open spec fn answer_rel(pre: Machine, a: Answer, post: Machine, out: Outcome) -> bool {
    if pre.ctrl@.len() == 0 {
        failed_rel(post, out, ErrorKind::UnexpectedAnswer)
    } else {
        let stem = pre.ctrl@.drop_last();
        match pre.ctrl@.last() {
            Frame::PushAwait => {
                match a {
                    Answer::Num(x) => {
                    &&& keep(pre, post)
                    &&& post.env == pre.env
                    &&& post.vals@ == pre.vals@.push(x)
                    &&& post.ctrl@ == stem
                    &&& out == Outcome::Running
                    },
                    _ => failed_rel(post, out, ErrorKind::UnexpectedAnswer),
                }
            },
            Frame::LoopCeil { ctx } => {
                match a {
                    Answer::Int(lo) => {
                    &&& keep(pre, post)
                    &&& post.env == pre.env
                    &&& post.vals@ == pre.vals@
                    &&& post.ctrl@.len() == pre.ctrl@.len() + 1
                    &&& post.ctrl@.subrange(0, pre.ctrl@.len() - 1) == stem
                    &&& post.ctrl@[pre.ctrl@.len() - 1] == Frame::LoopTo { ctx, lo }
                    &&& child_of_src(post.ctrl@[pre.ctrl@.len() as int], ctx.to, ctx.base)
                    &&& out == Outcome::Running
                    },
                    _ => failed_rel(post, out, ErrorKind::UnexpectedAnswer),
                }
            },
            Frame::LoopFloor { ctx, lo } => {
                match a {
                    Answer::Int(hi) => {
                    if lo > hi {
                        // The range is empty: the loop contributes its
                        // identity and is done.
                        &&& keep(pre, post)
                        &&& post.env == pre.env
                        &&& post.vals@ == pre.vals@.push(identity_bits(ctx.is_sum))
                        &&& post.ctrl@ == stem
                        &&& out == Outcome::Running
                    } else {
                        &&& keep(pre, post)
                        &&& post.env == pre.env
                        &&& post.vals@ == pre.vals@
                        &&& post.ctrl@ == stem.push(
                            Frame::LoopBind { ctx, hi, i: lo, acc: identity_bits(ctx.is_sum) },
                        )
                        &&& out == Outcome::Need(Query::IntToNum(lo))
                    }
                    },
                    _ => failed_rel(post, out, ErrorKind::UnexpectedAnswer),
                }
            },
            Frame::LoopBind { ctx, hi, i, acc } => {
                match a {
                    Answer::Num(bits) => {
                    &&& keep(pre, post)
                    &&& post.env@ == pre.env@.insert(ctx.param@, bits)
                    &&& post.vals@ == pre.vals@
                    &&& post.ctrl@.len() == pre.ctrl@.len() + 1
                    &&& post.ctrl@.subrange(0, pre.ctrl@.len() - 1) == stem
                    &&& (post.ctrl@[pre.ctrl@.len() - 1] matches Frame::LoopBody {
                        ctx: c2,
                        hi: h2,
                        i: i2,
                        acc: a2,
                        saved,
                    } && c2 == ctx && h2 == hi && i2 == i && a2 == acc && saved == saved_of(
                        pre.env@,
                        ctx.param@,
                    ))
                    &&& child_of_src(post.ctrl@[pre.ctrl@.len() as int], ctx.body, ctx.base)
                    &&& out == Outcome::Running
                    },
                    _ => failed_rel(post, out, ErrorKind::UnexpectedAnswer),
                }
            },
            Frame::LoopAcc { ctx, hi, i } => {
                match a {
                    Answer::Num(acc2) => {
                    if i >= hi {
                        // The last iteration is done: the accumulated value
                        // is the loop's value.
                        &&& keep(pre, post)
                        &&& post.env == pre.env
                        &&& post.vals@ == pre.vals@.push(acc2)
                        &&& post.ctrl@ == stem
                        &&& out == Outcome::Running
                    } else {
                        &&& keep(pre, post)
                        &&& post.env == pre.env
                        &&& post.vals@ == pre.vals@
                        &&& post.ctrl@ == stem.push(
                            Frame::LoopBind { ctx, hi, i: (i + 1) as i64, acc: acc2 },
                        )
                        &&& out == Outcome::Need(Query::IntToNum((i + 1) as i64))
                    }
                    },
                    _ => failed_rel(post, out, ErrorKind::UnexpectedAnswer),
                }
            },
            Frame::RandIntCmp { a: av, b: bv } => {
                match a {
                    Answer::Bool(le) => {
                    let amin = if le { av } else { bv };
                    let amax = if le { bv } else { av };
                    &&& keep(pre, post)
                    &&& post.env == pre.env
                    &&& post.vals@ == pre.vals@
                    &&& post.ctrl@ == stem.push(Frame::RandIntLo { amax })
                    &&& out == Outcome::Need(Query::CeilInt(amin))
                    },
                    _ => failed_rel(post, out, ErrorKind::UnexpectedAnswer),
                }
            },
            Frame::RandIntLo { amax } => {
                match a {
                    Answer::Int(lo) => {
                    &&& keep(pre, post)
                    &&& post.env == pre.env
                    &&& post.vals@ == pre.vals@
                    &&& post.ctrl@ == stem.push(Frame::RandIntHi { lo })
                    &&& out == Outcome::Need(Query::FloorInt(amax))
                    },
                    _ => failed_rel(post, out, ErrorKind::UnexpectedAnswer),
                }
            },
            Frame::RandIntHi { lo } => {
                match a {
                    Answer::Int(hi) => {
                    if lo > hi {
                        failed_rel(post, out, ErrorKind::InvalidRandIntRange)
                    } else {
                        &&& keep(pre, post)
                        &&& post.env == pre.env
                        &&& post.vals@ == pre.vals@
                        &&& post.ctrl@ == stem.push(Frame::RandIntVal)
                        &&& out == Outcome::Need(Query::RandIntDraw(lo, hi))
                    }
                    },
                    _ => failed_rel(post, out, ErrorKind::UnexpectedAnswer),
                }
            },
            Frame::RandIntVal => {
                match a {
                    Answer::Int(v) => {
                    &&& keep(pre, post)
                    &&& post.env == pre.env
                    &&& post.vals@ == pre.vals@
                    &&& post.ctrl@ == stem.push(Frame::PushAwait)
                    &&& out == Outcome::Need(Query::IntToNum(v))
                    },
                    _ => failed_rel(post, out, ErrorKind::UnexpectedAnswer),
                }
            },
            _ => failed_rel(post, out, ErrorKind::UnexpectedAnswer),
        }
    }
}

/// The whole behaviour of `Machine::step`: relates the machine state before
/// the call, the answer passed in, the state after the call, and the outcome.
pub open spec fn step_rel(pre: Machine, ans: Option<Answer>, post: Machine, out: Outcome) -> bool {
    match pre.fin {
        Some(r) => post == pre && out == (match r {
            Ok(v) => Outcome::Done(v),
            Err(k) => Outcome::Failed(k),
        }),
        None => match ans {
            None => quiet_rel(pre, post, out),
            Some(a) => answer_rel(pre, a, post, out),
        },
    }
}

impl Machine {
    /// A machine that will execute a compiled program with the given
    /// user-function table, a fresh environment and an empty stack.
    pub fn for_program(prog: Program, funcs: FunctionTable) -> (r: Machine)
        ensures
            r.funcs == funcs,
            r.env@ == Map::<Seq<char>, u64>::empty(),
            r.vals@ =~= Seq::<u64>::empty(),
            r.ctrl@.len() == 1,
            (r.ctrl@[0] matches Frame::Run { prog: p, pc, base } && prog_model(p@) == prog_model(
                prog@,
            ) && pc == 0 && base == 0),
            r.fin is None,
    {
        let mut ctrl: Vec<Frame> = Vec::new();
        ctrl.push(Frame::Run { prog, pc: 0, base: 0 });
        Machine { funcs, env: StringHashMap::new(), vals: Vec::new(), ctrl, fin: None }
    }

    /// A machine that will evaluate one expression tree with the given
    /// user-function table (the tree-walking entry).
    pub fn for_expr(expr: Expr, funcs: FunctionTable) -> (r: Machine)
        ensures
            r.funcs == funcs,
            r.env@ == Map::<Seq<char>, u64>::empty(),
            r.vals@ =~= Seq::<u64>::empty(),
            r.ctrl@.len() == 1,
            (r.ctrl@[0] matches Frame::EvalExpr { expr: e } && expr_model(e) == expr_model(expr)),
            r.fin is None,
    {
        let mut ctrl: Vec<Frame> = Vec::new();
        ctrl.push(Frame::EvalExpr { expr });
        Machine { funcs, env: StringHashMap::new(), vals: Vec::new(), ctrl, fin: None }
    }

    /// Saves the current binding of `name` and binds it to `v`.
    fn bind_saving(&mut self, name: &String, v: u64) -> (saved: Option<u64>)
        ensures
            final(self).env@ == old(self).env@.insert(name@, v),
            saved == if old(self).env@.contains_key(name@) {
                Some(old(self).env@[name@])
            } else {
                Option::<u64>::None
            },
            final(self).funcs == old(self).funcs,
            final(self).vals == old(self).vals,
            final(self).ctrl == old(self).ctrl,
            final(self).fin == old(self).fin,
    {
        let saved = match self.env.get(name.as_str()) {
            Some(x) => Some(*x),
            None => None,
        };
        self.env.insert(name.clone(), v);
        saved
    }

    /// Restores what `bind_saving` saved: re-binds the old value, or removes
    /// the binding when there was none.
    fn restore(&mut self, name: &String, saved: Option<u64>)
        ensures
            final(self).env@ == match saved {
                Some(v) => old(self).env@.insert(name@, v),
                None => old(self).env@.remove(name@),
            },
            final(self).funcs == old(self).funcs,
            final(self).vals == old(self).vals,
            final(self).ctrl == old(self).ctrl,
            final(self).fin == old(self).fin,
    {
        match saved {
            Some(v) => self.env.insert(name.clone(), v),
            None => self.env.remove(name.as_str()),
        }
    }


    /// Marks the run failed; every later step repeats the failure.
    fn fail(&mut self, k: ErrorKind) -> (out: Outcome)
        ensures
            final(self).fin == Some(Result::<u64, ErrorKind>::Err(k)),
            out == Outcome::Failed(k),
    {
        self.fin = Some(Err(k));
        Outcome::Failed(k)
    }

    /// One step of the machine.  Pass `None` while the machine is running;
    /// after `Outcome::Need(q)` pass `Some` answer to `q`.  The outcome and
    /// the new state are fixed by `step_rel`.
    pub fn step(&mut self, ans: Option<Answer>) -> (out: Outcome)
        ensures
            step_rel(*old(self), ans, *final(self), out),
    {
        match self.fin {
            Some(Ok(v)) => {
                return Outcome::Done(v);
            },
            Some(Err(k)) => {
                return Outcome::Failed(k);
            },
            None => {},
        }
        match ans {
            Some(a) => self.step_answer(a),
            None => self.step_quiet(),
        }
    }

    /// A step while no answer is due.
    fn step_quiet(&mut self) -> (out: Outcome)
        requires
            old(self).fin is None,
        ensures
            step_rel(*old(self), None, *final(self), out),
    {
        let fr = match self.ctrl.pop() {
            None => {
                // Execution ended: the single remaining value is the result;
                // an empty stack means no result was produced.
                match self.vals.pop() {
                    Some(v) => {
                        self.fin = Some(Ok(v));
                        return Outcome::Done(v);
                    },
                    None => {
                        return self.fail(ErrorKind::NoResult);
                    },
                }
            },
            Some(fr) => fr,
        };
        match fr {
            Frame::Run { prog, pc, base } => self.run_frame(prog, pc, base, Ghost(*old(self))),
            Frame::EvalExpr { expr } => self.eval_frame(expr, Ghost(*old(self))),
            Frame::Bin2 { op } => {
                let b = match self.vals.pop() {
                    Some(x) => x,
                    None => { return self.fail(ErrorKind::StackUnderflow); },
                };
                let a = match self.vals.pop() {
                    Some(x) => x,
                    None => { return self.fail(ErrorKind::StackUnderflow); },
                };
                proof {
                    assert(self.vals@ =~= old(self).vals@.take(old(self).vals@.len() - 2));
                }
                self.ctrl.push(Frame::PushAwait);
                Outcome::Need(Query::BinOp(op, a, b))
            },
            Frame::Apply1 { func } => {
                let v = match self.vals.pop() {
                    Some(x) => x,
                    None => { return self.fail(ErrorKind::StackUnderflow); },
                };
                match func {
                    SpecialFunction::LogBase => self.fail(ErrorKind::LogBaseInBody),
                    SpecialFunction::RandInt => self.fail(ErrorKind::RandIntInBody),
                    SpecialFunction::Rand => {
                        self.ctrl.push(Frame::PushAwait);
                        Outcome::Need(Query::Rand)
                    },
                    SpecialFunction::Pow => {
                        self.vals.push(v);
                        proof {
                            assert(self.vals@ =~= old(self).vals@);
                        }
                        Outcome::Running
                    },
                    _ => {
                        self.ctrl.push(Frame::PushAwait);
                        Outcome::Need(Query::Fun1(func, v))
                    },
                }
            },
            Frame::Assign2 { name } => {
                if self.vals.len() == 0 {
                    return self.fail(ErrorKind::StackUnderflow);
                }
                let v = self.vals[self.vals.len() - 1];
                self.env.insert(name, v);
                Outcome::Running
            },
            Frame::SeqNext { exprs, idx } => self.seq_frame(exprs, idx, Ghost(*old(self))),
            Frame::CallArg { name } => {
                let arg = match self.vals.pop() {
                    Some(x) => x,
                    None => { return self.fail(ErrorKind::StackUnderflow); },
                };
                let (param, body) = match self.funcs.lookup(name.as_str()) {
                    Some(d) => (d.0.clone(), d.1.duplicate()),
                    None => { return self.fail(ErrorKind::FunctionNotFoundInBody); },
                };
                let saved = self.bind_saving(&param, arg);
                self.ctrl.push(Frame::CallRet { param, saved });
                self.ctrl.push(Frame::EvalExpr { expr: body });
                proof {
                    assert(self.ctrl@.subrange(0, old(self).ctrl@.len() - 1) =~= old(
                        self,
                    ).ctrl@.drop_last());
                }
                Outcome::Running
            },
            Frame::CallRet { param, saved } => {
                self.restore(&param, saved);
                Outcome::Running
            },
            Frame::LoopFrom { ctx } => {
                if self.vals.len() <= ctx.base {
                    return self.fail(ErrorKind::NoResult);
                }
                let v = self.vals[self.vals.len() - 1];
                self.vals.truncate(ctx.base);
                self.ctrl.push(Frame::LoopCeil { ctx });
                Outcome::Need(Query::CeilInt(v))
            },
            Frame::LoopTo { ctx, lo } => {
                if self.vals.len() <= ctx.base {
                    return self.fail(ErrorKind::NoResult);
                }
                let v = self.vals[self.vals.len() - 1];
                self.vals.truncate(ctx.base);
                self.ctrl.push(Frame::LoopFloor { ctx, lo });
                Outcome::Need(Query::FloorInt(v))
            },
            Frame::LoopBody { ctx, hi, i, acc, saved } => {
                if self.vals.len() <= ctx.base {
                    return self.fail(ErrorKind::NoResult);
                }
                let v = self.vals[self.vals.len() - 1];
                self.vals.truncate(ctx.base);
                self.restore(&ctx.param, saved);
                let op = if ctx.is_sum {
                    BinaryOperator::Plus
                } else {
                    BinaryOperator::Star
                };
                self.ctrl.push(Frame::LoopAcc { ctx, hi, i });
                Outcome::Need(Query::BinOp(op, acc, v))
            },
            Frame::PushAwait => self.fail(ErrorKind::UnexpectedAnswer),
            Frame::LoopCeil { .. } => self.fail(ErrorKind::UnexpectedAnswer),
            Frame::LoopFloor { .. } => self.fail(ErrorKind::UnexpectedAnswer),
            Frame::LoopBind { .. } => self.fail(ErrorKind::UnexpectedAnswer),
            Frame::LoopAcc { .. } => self.fail(ErrorKind::UnexpectedAnswer),
            Frame::RandIntCmp { .. } => self.fail(ErrorKind::UnexpectedAnswer),
            Frame::RandIntLo { .. } => self.fail(ErrorKind::UnexpectedAnswer),
            Frame::RandIntHi { .. } => self.fail(ErrorKind::UnexpectedAnswer),
            Frame::RandIntVal => self.fail(ErrorKind::UnexpectedAnswer),
        }
    }

    /// A step that consumes the caller's answer to the pending query.
    fn step_answer(&mut self, a: Answer) -> (out: Outcome)
        requires
            old(self).fin is None,
        ensures
            step_rel(*old(self), Some(a), *final(self), out),
    {
        let fr = match self.ctrl.pop() {
            None => { return self.fail(ErrorKind::UnexpectedAnswer); },
            Some(fr) => fr,
        };
        match fr {
            Frame::PushAwait => {
                match a {
                    Answer::Num(x) => {
                        self.vals.push(x);
                        Outcome::Running
                    },
                    _ => self.fail(ErrorKind::UnexpectedAnswer),
                }
            },
            Frame::LoopCeil { ctx } => {
                match a {
                    Answer::Int(lo) => {
                        let child = Machine::src_child(&ctx.to, ctx.base);
                        self.ctrl.push(Frame::LoopTo { ctx, lo });
                        self.ctrl.push(child);
                        proof {
                            assert(self.ctrl@.subrange(0, old(self).ctrl@.len() - 1) =~= old(
                                self,
                            ).ctrl@.drop_last());
                        }
                        Outcome::Running
                    },
                    _ => self.fail(ErrorKind::UnexpectedAnswer),
                }
            },
            Frame::LoopFloor { ctx, lo } => {
                match a {
                    Answer::Int(hi) => {
                        if lo > hi {
                            let identity = if ctx.is_sum {
                                ZERO_BITS
                            } else {
                                ONE_BITS
                            };
                            self.vals.push(identity);
                            Outcome::Running
                        } else {
                            let identity = if ctx.is_sum {
                                ZERO_BITS
                            } else {
                                ONE_BITS
                            };
                            self.ctrl.push(Frame::LoopBind { ctx, hi, i: lo, acc: identity });
                            Outcome::Need(Query::IntToNum(lo))
                        }
                    },
                    _ => self.fail(ErrorKind::UnexpectedAnswer),
                }
            },
            Frame::LoopBind { ctx, hi, i, acc } => {
                match a {
                    Answer::Num(bits) => {
                        let saved = self.bind_saving(&ctx.param, bits);
                        let child = Machine::src_child(&ctx.body, ctx.base);
                        self.ctrl.push(Frame::LoopBody { ctx, hi, i, acc, saved });
                        self.ctrl.push(child);
                        proof {
                            assert(self.ctrl@.subrange(0, old(self).ctrl@.len() - 1) =~= old(
                                self,
                            ).ctrl@.drop_last());
                        }
                        Outcome::Running
                    },
                    _ => self.fail(ErrorKind::UnexpectedAnswer),
                }
            },
            Frame::LoopAcc { ctx, hi, i } => {
                match a {
                    Answer::Num(acc2) => {
                        if i >= hi {
                            self.vals.push(acc2);
                            Outcome::Running
                        } else {
                            self.ctrl.push(Frame::LoopBind { ctx, hi, i: i + 1, acc: acc2 });
                            Outcome::Need(Query::IntToNum(i + 1))
                        }
                    },
                    _ => self.fail(ErrorKind::UnexpectedAnswer),
                }
            },
            Frame::RandIntCmp { a: av, b: bv } => {
                match a {
                    Answer::Bool(le) => {
                        let amin = if le {
                            av
                        } else {
                            bv
                        };
                        let amax = if le {
                            bv
                        } else {
                            av
                        };
                        self.ctrl.push(Frame::RandIntLo { amax });
                        Outcome::Need(Query::CeilInt(amin))
                    },
                    _ => self.fail(ErrorKind::UnexpectedAnswer),
                }
            },
            Frame::RandIntLo { amax } => {
                match a {
                    Answer::Int(lo) => {
                        self.ctrl.push(Frame::RandIntHi { lo });
                        Outcome::Need(Query::FloorInt(amax))
                    },
                    _ => self.fail(ErrorKind::UnexpectedAnswer),
                }
            },
            Frame::RandIntHi { lo } => {
                match a {
                    Answer::Int(hi) => {
                        if lo > hi {
                            self.fail(ErrorKind::InvalidRandIntRange)
                        } else {
                            self.ctrl.push(Frame::RandIntVal);
                            Outcome::Need(Query::RandIntDraw(lo, hi))
                        }
                    },
                    _ => self.fail(ErrorKind::UnexpectedAnswer),
                }
            },
            Frame::RandIntVal => {
                match a {
                    Answer::Int(v) => {
                        self.ctrl.push(Frame::PushAwait);
                        Outcome::Need(Query::IntToNum(v))
                    },
                    _ => self.fail(ErrorKind::UnexpectedAnswer),
                }
            },
            _ => self.fail(ErrorKind::UnexpectedAnswer),
        }
    }

    /// Executes the instruction at `pc` of a running (sub-)program.
    fn run_frame(
        &mut self,
        prog: Vec<Bytecode>,
        pc: usize,
        base: usize,
        Ghost(pre): Ghost<Machine>,
    ) -> (out: Outcome)
        requires
            pre.fin is None,
            pre.ctrl@.len() > 0,
            old(self).funcs == pre.funcs,
            old(self).env == pre.env,
            old(self).vals == pre.vals,
            old(self).fin == pre.fin,
            old(self).ctrl@ == pre.ctrl@.drop_last(),
        ensures
            run_rel(pre, *final(self), out, prog, pc, base),
    {
        if pc >= prog.len() {
            // The sub-program is done; its caller (the frame below, or the
            // finish handling when none is left) acts next.
            return Outcome::Running;
        }
        let ins = prog[pc].duplicate();
        self.ctrl.push(Frame::Run { prog, pc: pc + 1, base });
        let ghost cont = self.ctrl@;
        match ins {
            Bytecode::PushNumber(t) => {
                self.ctrl.push(Frame::PushAwait);
                Outcome::Need(Query::ParseNumber(t))
            },
            Bytecode::Add => self.run_binop(BinaryOperator::Plus, base),
            Bytecode::Sub => self.run_binop(BinaryOperator::Minus, base),
            Bytecode::Mul => self.run_binop(BinaryOperator::Star, base),
            Bytecode::Div => self.run_binop(BinaryOperator::Slash, base),
            Bytecode::Pow => self.run_binop(BinaryOperator::Pow, base),
            Bytecode::Sin => self.run_fun1(SpecialFunction::Sin, base),
            Bytecode::Cos => self.run_fun1(SpecialFunction::Cos, base),
            Bytecode::Tan => self.run_fun1(SpecialFunction::Tan, base),
            Bytecode::Cot => self.run_fun1(SpecialFunction::Cot, base),
            Bytecode::Sec => self.run_fun1(SpecialFunction::Sec, base),
            Bytecode::Csc => self.run_fun1(SpecialFunction::Csc, base),
            Bytecode::Sinh => self.run_fun1(SpecialFunction::Sinh, base),
            Bytecode::Cosh => self.run_fun1(SpecialFunction::Cosh, base),
            Bytecode::Tanh => self.run_fun1(SpecialFunction::Tanh, base),
            Bytecode::Asinh => self.run_fun1(SpecialFunction::Asinh, base),
            Bytecode::Acosh => self.run_fun1(SpecialFunction::Acosh, base),
            Bytecode::Atanh => self.run_fun1(SpecialFunction::Atanh, base),
            Bytecode::Exp => self.run_fun1(SpecialFunction::Exp, base),
            Bytecode::Log => self.run_fun1(SpecialFunction::Log, base),
            Bytecode::Log10 => self.run_fun1(SpecialFunction::Log10, base),
            Bytecode::Log2 => self.run_fun1(SpecialFunction::Log2, base),
            Bytecode::Sqrt => self.run_fun1(SpecialFunction::Sqrt, base),
            Bytecode::Abs => self.run_fun1(SpecialFunction::Abs, base),
            Bytecode::Asin => self.run_fun1(SpecialFunction::Asin, base),
            Bytecode::Acos => self.run_fun1(SpecialFunction::Acos, base),
            Bytecode::Atan => self.run_fun1(SpecialFunction::Atan, base),
            Bytecode::Acot => self.run_fun1(SpecialFunction::Acot, base),
            Bytecode::Asec => self.run_fun1(SpecialFunction::Asec, base),
            Bytecode::Acsc => self.run_fun1(SpecialFunction::Acsc, base),
            Bytecode::Fact => self.run_fun1(SpecialFunction::Fact, base),
            Bytecode::Floor => self.run_fun1(SpecialFunction::Floor, base),
            Bytecode::LogBase => {
                let b = match self.pop_above(base) {
                    Some(x) => x,
                    None => { return self.fail(ErrorKind::StackUnderflow); },
                };
                let av = match self.pop_above(base) {
                    Some(x) => x,
                    None => { return self.fail(ErrorKind::StackUnderflow); },
                };
                proof {
                    assert(self.vals@ =~= old(self).vals@.take(old(self).vals@.len() - 2));
                }
                self.ctrl.push(Frame::PushAwait);
                Outcome::Need(Query::LogBase(av, b))
            },
            Bytecode::Rand => {
                self.ctrl.push(Frame::PushAwait);
                Outcome::Need(Query::Rand)
            },
            Bytecode::RandInt => {
                let b = match self.pop_above(base) {
                    Some(x) => x,
                    None => { return self.fail(ErrorKind::StackUnderflow); },
                };
                let av = match self.pop_above(base) {
                    Some(x) => x,
                    None => { return self.fail(ErrorKind::StackUnderflow); },
                };
                proof {
                    assert(self.vals@ =~= old(self).vals@.take(old(self).vals@.len() - 2));
                }
                self.ctrl.push(Frame::RandIntCmp { a: av, b });
                Outcome::Need(Query::LeNum(av, b))
            },
            Bytecode::StoreVar(name) => {
                let v = match self.pop_above(base) {
                    Some(x) => x,
                    None => { return self.fail(ErrorKind::StackUnderflow); },
                };
                self.env.insert(name, v);
                Outcome::Running
            },
            Bytecode::LoadVar(name) => {
                let v = match self.env.get(name.as_str()) {
                    Some(x) => *x,
                    None => { return self.fail(ErrorKind::VariableNotFound); },
                };
                self.vals.push(v);
                Outcome::Running
            },
            Bytecode::CallUserFunction(name) => {
                let arg = match self.pop_above(base) {
                    Some(x) => x,
                    None => { return self.fail(ErrorKind::StackUnderflow); },
                };
                let (param, body) = match self.funcs.lookup(name.as_str()) {
                    Some(d) => (d.0.clone(), d.1.duplicate()),
                    None => { return self.fail(ErrorKind::FunctionNotFound); },
                };
                let saved = self.bind_saving(&param, arg);
                self.ctrl.push(Frame::CallRet { param, saved });
                self.ctrl.push(Frame::EvalExpr { expr: body });
                proof {
                    assert(self.ctrl@.subrange(0, cont.len() as int) =~= cont);
                }
                Outcome::Running
            },
            Bytecode::SumLoop { from, to, param, body } => {
                let here = self.vals.len();
                let ctx = LoopCtx {
                    is_sum: true,
                    param,
                    to: LoopSrc::Code(to),
                    body: LoopSrc::Code(body),
                    base: here,
                };
                self.ctrl.push(Frame::LoopFrom { ctx });
                self.ctrl.push(Frame::Run { prog: from, pc: 0, base: here });
                proof {
                    assert(self.ctrl@.subrange(0, cont.len() as int) =~= cont);
                }
                Outcome::Running
            },
            Bytecode::ProductLoop { from, to, param, body } => {
                let here = self.vals.len();
                let ctx = LoopCtx {
                    is_sum: false,
                    param,
                    to: LoopSrc::Code(to),
                    body: LoopSrc::Code(body),
                    base: here,
                };
                self.ctrl.push(Frame::LoopFrom { ctx });
                self.ctrl.push(Frame::Run { prog: from, pc: 0, base: here });
                proof {
                    assert(self.ctrl@.subrange(0, cont.len() as int) =~= cont);
                }
                Outcome::Running
            },
        }
    }

    /// Pops a value of the current sub-program's local stack, which begins
    /// at height `base`.
    fn pop_above(&mut self, base: usize) -> (r: Option<u64>)
        ensures
            final(self).funcs == old(self).funcs,
            final(self).env == old(self).env,
            final(self).ctrl == old(self).ctrl,
            final(self).fin == old(self).fin,
            match r {
                Some(v) => old(self).vals@.len() > base && v == old(self).vals@.last()
                    && final(self).vals@ == old(self).vals@.drop_last(),
                None => old(self).vals@.len() <= base && final(self).vals == old(self).vals,
            },
    {
        if self.vals.len() > base {
            let v = match self.vals.pop() {
                Some(x) => x,
                None => { return None; },
            };
            Some(v)
        } else {
            None
        }
    }

    /// A binary arithmetic instruction: pops the right then the left operand
    /// and asks for the operation.
    fn run_binop(&mut self, op: BinaryOperator, base: usize) -> (out: Outcome)
        requires
            old(self).fin is None,
        ensures
            old(self).vals@.len() <= base + 1 ==> failed_rel(
                *final(self),
                out,
                ErrorKind::StackUnderflow,
            ),
            old(self).vals@.len() > base + 1 ==> {
                &&& final(self).funcs == old(self).funcs
                &&& final(self).env == old(self).env
                &&& final(self).fin is None
                &&& final(self).vals@ == old(self).vals@.take(old(self).vals@.len() - 2)
                &&& final(self).ctrl@ == old(self).ctrl@.push(Frame::PushAwait)
                &&& out == Outcome::Need(
                    Query::BinOp(
                        op,
                        old(self).vals@[old(self).vals@.len() - 2],
                        old(self).vals@.last(),
                    ),
                )
            },
    {
        let b = match self.pop_above(base) {
            Some(x) => x,
            None => { return self.fail(ErrorKind::StackUnderflow); },
        };
        let a = match self.pop_above(base) {
            Some(x) => x,
            None => { return self.fail(ErrorKind::StackUnderflow); },
        };
        self.ctrl.push(Frame::PushAwait);
        Outcome::Need(Query::BinOp(op, a, b))
    }

    /// A one-argument named-function instruction.
    fn run_fun1(&mut self, f: SpecialFunction, base: usize) -> (out: Outcome)
        requires
            old(self).fin is None,
        ensures
            old(self).vals@.len() <= base ==> failed_rel(
                *final(self),
                out,
                ErrorKind::StackUnderflow,
            ),
            old(self).vals@.len() > base ==> {
                &&& final(self).funcs == old(self).funcs
                &&& final(self).env == old(self).env
                &&& final(self).fin is None
                &&& final(self).vals@ == old(self).vals@.drop_last()
                &&& final(self).ctrl@ == old(self).ctrl@.push(Frame::PushAwait)
                &&& out == Outcome::Need(Query::Fun1(f, old(self).vals@.last()))
            },
    {
        let v = match self.pop_above(base) {
            Some(x) => x,
            None => { return self.fail(ErrorKind::StackUnderflow); },
        };
        self.ctrl.push(Frame::PushAwait);
        Outcome::Need(Query::Fun1(f, v))
    }

    /// Evaluates one expression node of a user-function body.
    fn eval_frame(&mut self, expr: Expr, Ghost(pre): Ghost<Machine>) -> (out: Outcome)
        requires
            pre.fin is None,
            pre.ctrl@.len() > 0,
            old(self).funcs == pre.funcs,
            old(self).env == pre.env,
            old(self).vals == pre.vals,
            old(self).fin == pre.fin,
            old(self).ctrl@ == pre.ctrl@.drop_last(),
        ensures
            eval_rel(pre, *final(self), out, expr),
    {
        match expr {
            Expr::Number(t) => {
                self.ctrl.push(Frame::PushAwait);
                Outcome::Need(Query::ParseNumber(t))
            },
            Expr::Ident(name) => {
                let v = match self.env.get(name.as_str()) {
                    Some(x) => *x,
                    None => { return self.fail(ErrorKind::VariableNotFoundInBody); },
                };
                self.vals.push(v);
                Outcome::Running
            },
            Expr::Assign { name, expr } => {
                self.ctrl.push(Frame::Assign2 { name });
                self.ctrl.push(Frame::EvalExpr { expr: *expr });
                Outcome::Running
            },
            Expr::BinaryOp { left, op, right } => {
                self.ctrl.push(Frame::Bin2 { op });
                self.ctrl.push(Frame::EvalExpr { expr: *right });
                self.ctrl.push(Frame::EvalExpr { expr: *left });
                Outcome::Running
            },
            Expr::Function { func, arg } => {
                self.ctrl.push(Frame::Apply1 { func });
                self.ctrl.push(Frame::EvalExpr { expr: *arg });
                Outcome::Running
            },
            Expr::FunctionDef { .. } => self.fail(ErrorKind::NestedFunctionDef),
            Expr::FunctionCall { name, arg } => {
                self.ctrl.push(Frame::CallArg { name });
                self.ctrl.push(Frame::EvalExpr { expr: *arg });
                Outcome::Running
            },
            Expr::Sequence(v) => {
                self.ctrl.push(Frame::SeqNext { exprs: v, idx: 0 });
                Outcome::Running
            },
            Expr::Sum { from, to, param, body } => {
                let here = self.vals.len();
                let ctx = LoopCtx {
                    is_sum: true,
                    param,
                    to: LoopSrc::Tree(*to),
                    body: LoopSrc::Tree(*body),
                    base: here,
                };
                self.ctrl.push(Frame::LoopFrom { ctx });
                self.ctrl.push(Frame::EvalExpr { expr: *from });
                Outcome::Running
            },
            Expr::Product { from, to, param, body } => {
                let here = self.vals.len();
                let ctx = LoopCtx {
                    is_sum: false,
                    param,
                    to: LoopSrc::Tree(*to),
                    body: LoopSrc::Tree(*body),
                    base: here,
                };
                self.ctrl.push(Frame::LoopFrom { ctx });
                self.ctrl.push(Frame::EvalExpr { expr: *from });
                Outcome::Running
            },
        }
    }

    /// Walks a sequence of expressions; every value but the last is
    /// discarded, and an empty sequence evaluates to zero.
    fn seq_frame(&mut self, exprs: Vec<Expr>, idx: usize, Ghost(pre): Ghost<Machine>) -> (out: Outcome)
        requires
            pre.fin is None,
            pre.ctrl@.len() > 0,
            old(self).funcs == pre.funcs,
            old(self).env == pre.env,
            old(self).vals == pre.vals,
            old(self).fin == pre.fin,
            old(self).ctrl@ == pre.ctrl@.drop_last(),
        ensures
            seq_rel(pre, *final(self), out, exprs, idx),
    {
        if idx == 0 {
            if exprs.len() == 0 {
                self.vals.push(ZERO_BITS);
                return Outcome::Running;
            }
            let e = exprs[0].duplicate();
            self.ctrl.push(Frame::SeqNext { exprs, idx: 1 });
            self.ctrl.push(Frame::EvalExpr { expr: e });
            proof {
                assert(self.ctrl@.subrange(0, old(self).ctrl@.len() as int) =~= old(self).ctrl@);
            }
            Outcome::Running
        } else if idx < exprs.len() {
            match self.vals.pop() {
                Some(_) => {},
                None => { return self.fail(ErrorKind::StackUnderflow); },
            }
            let e = exprs[idx].duplicate();
            self.ctrl.push(Frame::SeqNext { exprs, idx: idx + 1 });
            self.ctrl.push(Frame::EvalExpr { expr: e });
            proof {
                assert(self.ctrl@.subrange(0, old(self).ctrl@.len() as int) =~= old(self).ctrl@);
            }
            Outcome::Running
        } else {
            Outcome::Running
        }
    }

    /// A frame that computes one loop bound or body from its source.
    fn src_child(src: &LoopSrc, base: usize) -> (r: Frame)
        ensures
            match *src {
                LoopSrc::Code(ref p) => (r matches Frame::Run { prog, pc, base: b } && prog_model(
                    prog@,
                ) == prog_model(p@) && pc == 0 && b == base),
                LoopSrc::Tree(ref e) => (r matches Frame::EvalExpr { expr } && expr_model(expr)
                    == expr_model(*e)),
            },
    {
        match src {
            LoopSrc::Code(p) => Frame::Run { prog: duplicate_prog(p), pc: 0, base },
            LoopSrc::Tree(e) => Frame::EvalExpr { expr: e.duplicate() },
        }
    }
}

} // verus!
