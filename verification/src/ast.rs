//! The abstract syntax tree for expressions.

use vstd::prelude::*;
use crate::lexer::{BinaryOperator, SpecialFunction};

verus! {

/// An expression.  A numeric literal keeps its source text; it becomes a
/// floating-point value only when the program is run (see `vm`).
#[derive(Debug, PartialEq, Eq)]
pub enum Expr {
    /// A numeric literal.
    Number(String),
    /// A variable reference.
    Ident(String),
    /// An assignment: variable = value.
    Assign { name: String, expr: Box<Expr> },
    /// A binary operation.
    BinaryOp { left: Box<Expr>, op: BinaryOperator, right: Box<Expr> },
    /// A built-in function application.
    Function { func: SpecialFunction, arg: Box<Expr> },
    /// A user-defined function definition: def name(arg) = body.
    FunctionDef { name: String, arg: String, body: Box<Expr> },
    /// A user-defined function call: name(expr).
    FunctionCall { name: String, arg: Box<Expr> },
    /// A sequence of expressions (comma-separated arguments, or statements).
    Sequence(Vec<Expr>),
    /// Bounded summation over an integer range.
    Sum { from: Box<Expr>, to: Box<Expr>, param: String, body: Box<Expr> },
    /// Bounded product over an integer range.
    Product { from: Box<Expr>, to: Box<Expr>, param: String, body: Box<Expr> },
}

/// Mathematical model of an expression.
pub ghost enum ExprModel {
    Number(Seq<char>),
    Ident(Seq<char>),
    Assign { name: Seq<char>, expr: Box<ExprModel> },
    BinaryOp { left: Box<ExprModel>, op: BinaryOperator, right: Box<ExprModel> },
    Function { func: SpecialFunction, arg: Box<ExprModel> },
    FunctionDef { name: Seq<char>, arg: Seq<char>, body: Box<ExprModel> },
    FunctionCall { name: Seq<char>, arg: Box<ExprModel> },
    Sequence(Seq<ExprModel>),
    Sum { from: Box<ExprModel>, to: Box<ExprModel>, param: Seq<char>, body: Box<ExprModel> },
    Product { from: Box<ExprModel>, to: Box<ExprModel>, param: Seq<char>, body: Box<ExprModel> },
}

/// Model of a sequence of expressions.
pub open spec fn exprs_model(s: Seq<Expr>) -> Seq<ExprModel>
    decreases s,
{
    if s.len() == 0 {
        Seq::empty()
    } else {
        seq![expr_model(s[0])] + exprs_model(s.subrange(1, s.len() as int))
    }
}

/// Model of one expression.
pub open spec fn expr_model(e: Expr) -> ExprModel
    decreases e,
{
    match e {
        Expr::Number(s) => ExprModel::Number(s@),
        Expr::Ident(s) => ExprModel::Ident(s@),
        Expr::Assign { name, expr } => ExprModel::Assign {
            name: name@,
            expr: Box::new(expr_model(*expr)),
        },
        Expr::BinaryOp { left, op, right } => ExprModel::BinaryOp {
            left: Box::new(expr_model(*left)),
            op,
            right: Box::new(expr_model(*right)),
        },
        Expr::Function { func, arg } => ExprModel::Function {
            func,
            arg: Box::new(expr_model(*arg)),
        },
        Expr::FunctionDef { name, arg, body } => ExprModel::FunctionDef {
            name: name@,
            arg: arg@,
            body: Box::new(expr_model(*body)),
        },
        Expr::FunctionCall { name, arg } => ExprModel::FunctionCall {
            name: name@,
            arg: Box::new(expr_model(*arg)),
        },
        Expr::Sequence(v) => ExprModel::Sequence(exprs_model(v@)),
        Expr::Sum { from, to, param, body } => ExprModel::Sum {
            from: Box::new(expr_model(*from)),
            to: Box::new(expr_model(*to)),
            param: param@,
            body: Box::new(expr_model(*body)),
        },
        Expr::Product { from, to, param, body } => ExprModel::Product {
            from: Box::new(expr_model(*from)),
            to: Box::new(expr_model(*to)),
            param: param@,
            body: Box::new(expr_model(*body)),
        },
    }
}

/// `exprs_model` indexes pointwise.
pub proof fn lemma_exprs_model_len(s: Seq<Expr>)
    ensures
        exprs_model(s).len() == s.len(),
        forall|i: int| 0 <= i < s.len() ==> exprs_model(s)[i] == expr_model(#[trigger] s[i]),
    decreases s.len(),
{
    if s.len() > 0 {
        let t = s.subrange(1, s.len() as int);
        lemma_exprs_model_len(t);
        assert forall|i: int| 0 <= i < s.len() implies exprs_model(s)[i] == expr_model(
            #[trigger] s[i],
        ) by {
            if i > 0 {
                assert(t[i - 1] == s[i]);
                assert(exprs_model(s)[i] == exprs_model(t)[i - 1]);
            }
        }
    }
}

impl Expr {
    /// A structural copy with the same model.
    pub fn duplicate(&self) -> (r: Expr)
        ensures
            expr_model(r) == expr_model(*self),
        decreases self,
    {
        match self {
            Expr::Number(s) => Expr::Number(s.clone()),
            Expr::Ident(s) => Expr::Ident(s.clone()),
            Expr::Assign { name, expr } => Expr::Assign {
                name: name.clone(),
                expr: Box::new(expr.duplicate()),
            },
            Expr::BinaryOp { left, op, right } => Expr::BinaryOp {
                left: Box::new(left.duplicate()),
                op: *op,
                right: Box::new(right.duplicate()),
            },
            Expr::Function { func, arg } => Expr::Function {
                func: *func,
                arg: Box::new(arg.duplicate()),
            },
            Expr::FunctionDef { name, arg, body } => Expr::FunctionDef {
                name: name.clone(),
                arg: arg.clone(),
                body: Box::new(body.duplicate()),
            },
            Expr::FunctionCall { name, arg } => Expr::FunctionCall {
                name: name.clone(),
                arg: Box::new(arg.duplicate()),
            },
            Expr::Sequence(v) => {
                let mut out: Vec<Expr> = Vec::new();
                let mut i: usize = 0;
                while i < v.len()
                    invariant
                        i <= v.len(),
                        out@.len() == i,
                        *v == self->Sequence_0,
                        *self == Expr::Sequence(*v),
                        forall|j: int|
                            0 <= j < i ==> expr_model(#[trigger] out@[j]) == expr_model(v@[j]),
                    decreases v.len() - i,
                {
                    proof {
                        assert(decreases_to!(*self => *v));
                        assert(decreases_to!(*v => v@[i as int]));
                    }
                    let d = v[i].duplicate();
                    out.push(d);
                    i = i + 1;
                }
                proof {
                    lemma_exprs_model_len(v@);
                    lemma_exprs_model_len(out@);
                    assert forall|j: int| 0 <= j < v@.len() implies exprs_model(out@)[j]
                        == exprs_model(v@)[j] by {
                        assert(expr_model(out@[j]) == expr_model(v@[j]));
                    }
                    assert(exprs_model(out@) =~= exprs_model(v@));
                }
                Expr::Sequence(out)
            },
            Expr::Sum { from, to, param, body } => Expr::Sum {
                from: Box::new(from.duplicate()),
                to: Box::new(to.duplicate()),
                param: param.clone(),
                body: Box::new(body.duplicate()),
            },
            Expr::Product { from, to, param, body } => Expr::Product {
                from: Box::new(from.duplicate()),
                to: Box::new(to.duplicate()),
                param: param.clone(),
                body: Box::new(body.duplicate()),
            },
        }
    }
}

} // verus!
