//! Bytecode instructions and compiled programs.

use vstd::prelude::*;
use crate::lexer::{BinaryOperator, SpecialFunction};

verus! {

/// One bytecode instruction.  `PushNumber` carries the literal's source text
/// (see `lexer::Token::Number`); the loop instructions own three sub-programs
/// (lower bound, upper bound, body) and the loop parameter's name.
#[derive(Debug, PartialEq, Eq)]
pub enum Bytecode {
    PushNumber(String),
    Add,
    Sub,
    Mul,
    Div,
    Sin,
    Cos,
    Tan,
    Cot,
    Sec,
    Csc,
    Sinh,
    Cosh,
    Tanh,
    Asinh,
    Acosh,
    Atanh,
    Exp,
    Log,
    Log10,
    Log2,
    Sqrt,
    Abs,
    Asin,
    Acos,
    Atan,
    Acot,
    Asec,
    Acsc,
    Pow,
    Fact,
    LogBase,
    Floor,
    Rand,
    RandInt,
    StoreVar(String),
    LoadVar(String),
    CallUserFunction(String),
    SumLoop { from: Vec<Bytecode>, to: Vec<Bytecode>, param: String, body: Vec<Bytecode> },
    ProductLoop { from: Vec<Bytecode>, to: Vec<Bytecode>, param: String, body: Vec<Bytecode> },
}

/// A compiled program: a flat sequence of instructions.
pub type Program = Vec<Bytecode>;

/// Mathematical model of an instruction.
pub ghost enum BytecodeModel {
    PushNumber(Seq<char>),
    Add,
    Sub,
    Mul,
    Div,
    Sin,
    Cos,
    Tan,
    Cot,
    Sec,
    Csc,
    Sinh,
    Cosh,
    Tanh,
    Asinh,
    Acosh,
    Atanh,
    Exp,
    Log,
    Log10,
    Log2,
    Sqrt,
    Abs,
    Asin,
    Acos,
    Atan,
    Acot,
    Asec,
    Acsc,
    Pow,
    Fact,
    LogBase,
    Floor,
    Rand,
    RandInt,
    StoreVar(Seq<char>),
    LoadVar(Seq<char>),
    CallUserFunction(Seq<char>),
    SumLoop {
        from: Seq<BytecodeModel>,
        to: Seq<BytecodeModel>,
        param: Seq<char>,
        body: Seq<BytecodeModel>,
    },
    ProductLoop {
        from: Seq<BytecodeModel>,
        to: Seq<BytecodeModel>,
        param: Seq<char>,
        body: Seq<BytecodeModel>,
    },
}

/// Model of a whole (sub-)program.
pub open spec fn prog_model(s: Seq<Bytecode>) -> Seq<BytecodeModel>
    decreases s,
{
    if s.len() == 0 {
        Seq::empty()
    } else {
        seq![bc_model(s[0])] + prog_model(s.subrange(1, s.len() as int))
    }
}

/// Model of one instruction.
pub open spec fn bc_model(b: Bytecode) -> BytecodeModel
    decreases b,
{
    match b {
            Bytecode::PushNumber(s) => BytecodeModel::PushNumber(s@),
            Bytecode::Add => BytecodeModel::Add,
            Bytecode::Sub => BytecodeModel::Sub,
            Bytecode::Mul => BytecodeModel::Mul,
            Bytecode::Div => BytecodeModel::Div,
            Bytecode::Sin => BytecodeModel::Sin,
            Bytecode::Cos => BytecodeModel::Cos,
            Bytecode::Tan => BytecodeModel::Tan,
            Bytecode::Cot => BytecodeModel::Cot,
            Bytecode::Sec => BytecodeModel::Sec,
            Bytecode::Csc => BytecodeModel::Csc,
            Bytecode::Sinh => BytecodeModel::Sinh,
            Bytecode::Cosh => BytecodeModel::Cosh,
            Bytecode::Tanh => BytecodeModel::Tanh,
            Bytecode::Asinh => BytecodeModel::Asinh,
            Bytecode::Acosh => BytecodeModel::Acosh,
            Bytecode::Atanh => BytecodeModel::Atanh,
            Bytecode::Exp => BytecodeModel::Exp,
            Bytecode::Log => BytecodeModel::Log,
            Bytecode::Log10 => BytecodeModel::Log10,
            Bytecode::Log2 => BytecodeModel::Log2,
            Bytecode::Sqrt => BytecodeModel::Sqrt,
            Bytecode::Abs => BytecodeModel::Abs,
            Bytecode::Asin => BytecodeModel::Asin,
            Bytecode::Acos => BytecodeModel::Acos,
            Bytecode::Atan => BytecodeModel::Atan,
            Bytecode::Acot => BytecodeModel::Acot,
            Bytecode::Asec => BytecodeModel::Asec,
            Bytecode::Acsc => BytecodeModel::Acsc,
            Bytecode::Pow => BytecodeModel::Pow,
            Bytecode::Fact => BytecodeModel::Fact,
            Bytecode::LogBase => BytecodeModel::LogBase,
            Bytecode::Floor => BytecodeModel::Floor,
            Bytecode::Rand => BytecodeModel::Rand,
            Bytecode::RandInt => BytecodeModel::RandInt,
            Bytecode::StoreVar(s) => BytecodeModel::StoreVar(s@),
            Bytecode::LoadVar(s) => BytecodeModel::LoadVar(s@),
            Bytecode::CallUserFunction(s) => BytecodeModel::CallUserFunction(s@),
            Bytecode::SumLoop { from, to, param, body } => BytecodeModel::SumLoop {
                from: prog_model(from@),
                to: prog_model(to@),
                param: param@,
                body: prog_model(body@),
            },
            Bytecode::ProductLoop { from, to, param, body } => BytecodeModel::ProductLoop {
                from: prog_model(from@),
                to: prog_model(to@),
                param: param@,
                body: prog_model(body@),
            },
        }
    }

/// `prog_model` indexes pointwise.
pub proof fn lemma_prog_model_len(s: Seq<Bytecode>)
    ensures
        prog_model(s).len() == s.len(),
        forall|i: int| 0 <= i < s.len() ==> prog_model(s)[i] == bc_model(#[trigger] s[i]),
    decreases s.len(),
{
    if s.len() > 0 {
        let t = s.subrange(1, s.len() as int);
        lemma_prog_model_len(t);
        assert forall|i: int| 0 <= i < s.len() implies prog_model(s)[i] == bc_model(#[trigger] s[i]) by {
            if i > 0 {
                assert(t[i - 1] == s[i]);
                assert(prog_model(s)[i] == prog_model(t)[i - 1]);
            }
        }
    }
}

impl Bytecode {
    /// A structural copy with the same model.
    pub fn duplicate(&self) -> (r: Bytecode)
        ensures
            bc_model(r) == bc_model(*self),
        decreases self,
    {
        match self {
            Bytecode::PushNumber(s) => Bytecode::PushNumber(s.clone()),
            Bytecode::Add => Bytecode::Add,
            Bytecode::Sub => Bytecode::Sub,
            Bytecode::Mul => Bytecode::Mul,
            Bytecode::Div => Bytecode::Div,
            Bytecode::Sin => Bytecode::Sin,
            Bytecode::Cos => Bytecode::Cos,
            Bytecode::Tan => Bytecode::Tan,
            Bytecode::Cot => Bytecode::Cot,
            Bytecode::Sec => Bytecode::Sec,
            Bytecode::Csc => Bytecode::Csc,
            Bytecode::Sinh => Bytecode::Sinh,
            Bytecode::Cosh => Bytecode::Cosh,
            Bytecode::Tanh => Bytecode::Tanh,
            Bytecode::Asinh => Bytecode::Asinh,
            Bytecode::Acosh => Bytecode::Acosh,
            Bytecode::Atanh => Bytecode::Atanh,
            Bytecode::Exp => Bytecode::Exp,
            Bytecode::Log => Bytecode::Log,
            Bytecode::Log10 => Bytecode::Log10,
            Bytecode::Log2 => Bytecode::Log2,
            Bytecode::Sqrt => Bytecode::Sqrt,
            Bytecode::Abs => Bytecode::Abs,
            Bytecode::Asin => Bytecode::Asin,
            Bytecode::Acos => Bytecode::Acos,
            Bytecode::Atan => Bytecode::Atan,
            Bytecode::Acot => Bytecode::Acot,
            Bytecode::Asec => Bytecode::Asec,
            Bytecode::Acsc => Bytecode::Acsc,
            Bytecode::Pow => Bytecode::Pow,
            Bytecode::Fact => Bytecode::Fact,
            Bytecode::LogBase => Bytecode::LogBase,
            Bytecode::Floor => Bytecode::Floor,
            Bytecode::Rand => Bytecode::Rand,
            Bytecode::RandInt => Bytecode::RandInt,
            Bytecode::StoreVar(s) => Bytecode::StoreVar(s.clone()),
            Bytecode::LoadVar(s) => Bytecode::LoadVar(s.clone()),
            Bytecode::CallUserFunction(s) => Bytecode::CallUserFunction(s.clone()),
            Bytecode::SumLoop { from, to, param, body } => {
                proof {
                    assert(decreases_to!(*self => *from));
                    assert(decreases_to!(*self => *to));
                    assert(decreases_to!(*self => *body));
                }
                Bytecode::SumLoop {
                    from: duplicate_prog(from),
                    to: duplicate_prog(to),
                    param: param.clone(),
                    body: duplicate_prog(body),
                }
            },
            Bytecode::ProductLoop { from, to, param, body } => {
                proof {
                    assert(decreases_to!(*self => *from));
                    assert(decreases_to!(*self => *to));
                    assert(decreases_to!(*self => *body));
                }
                Bytecode::ProductLoop {
                    from: duplicate_prog(from),
                    to: duplicate_prog(to),
                    param: param.clone(),
                    body: duplicate_prog(body),
                }
            },
        }
    }
}

/// A structural copy of a whole (sub-)program with the same model.
pub fn duplicate_prog(p: &Vec<Bytecode>) -> (r: Vec<Bytecode>)
    ensures
        prog_model(r@) == prog_model(p@),
    decreases *p,
{
    let mut out: Vec<Bytecode> = Vec::new();
    let mut i: usize = 0;
    while i < p.len()
        invariant
            i <= p.len(),
            out@.len() == i,
            forall|j: int| 0 <= j < i ==> bc_model(#[trigger] out@[j]) == bc_model(p@[j]),
        decreases p.len() - i,
    {
        proof {
            assert(decreases_to!(*p => p@[i as int]));
        }
        let d = p[i].duplicate();
        out.push(d);
        i = i + 1;
    }
    proof {
        lemma_prog_model_len(p@);
        lemma_prog_model_len(out@);
        assert forall|j: int| 0 <= j < p@.len() implies prog_model(out@)[j] == prog_model(p@)[j] by {
            assert(bc_model(out@[j]) == bc_model(p@[j]));
        }
        assert(prog_model(out@) =~= prog_model(p@));
    }
    out
}

} // verus!
