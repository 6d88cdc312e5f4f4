//! The recursive-descent parser.
//!
//! Precedence, tightest to loosest: factor (literals, identifiers, calls,
//! parenthesised expressions, the loop forms, unary minus, absolute value,
//! postfix factorial), right-associative power, left-associative product and
//! quotient, left-associative sum and difference.
//!
//! Parse failures are unrecoverable: the whole parse returns its first
//! error.  A malformed function-definition line, however, is silently
//! dropped, and extra tokens after a definition's body are ignored.

use vstd::prelude::*;
use vstd::string::StringExecFns;
use crate::ast::{Expr, ExprModel, expr_model, exprs_model, lemma_exprs_model_len};
use crate::lexer::{Token, TokenModel, BinaryOperator, SpecialFunction, tokens_view};
use crate::table::{FunctionTable, FnDefModel};

verus! {

/// Why a parse failed.
#[derive(Debug, Clone, Copy, PartialEq, Eq, Structural)]
pub enum ParseError {
    /// A token that cannot begin a factor, or input that ended where a
    /// factor was due.
    UnexpectedToken,
    /// Input ended where a token was due.
    UnexpectedEnd,
    /// An operator stood where an operand was due.
    OperatorMisplaced,
    /// A parenthesised expression was not closed.
    ExpectedClosingParen,
    /// A user-function call's arguments were not closed.
    ExpectedClosingParenCall,
    /// A built-in function's arguments were not closed.
    ExpectedClosingParenArgs,
    /// A built-in function's name was not followed by an opening
    /// parenthesis.
    ExpectedOpeningParen,
    /// The absolute-value bars were not closed.
    ExpectedClosingPipe,
    /// A statement line held tokens after its statement.
    TrailingTokens,
}

/// A successful partial parse: the expression and the position after it.
pub type Parsed = Result<(ExprModel, int), ParseError>;

/// The loop forms: `sum(from: a, to: b, para: name, body)` and the product
/// analogue, with exactly these keywords in exactly this order.  Any other
/// shape falls through to ordinary factor parsing (`Ok(None)`); only a
/// failure inside one of the sub-expressions aborts.
pub open spec fn p_sum_product(ts: Seq<TokenModel>, pos: int) -> Result<
    Option<(ExprModel, int)>,
    ParseError,
>
    decreases ts.len() - pos, 0int,
{
    if 0 <= pos < ts.len() && (ts[pos] is Sum || ts[pos] is Product) {
        let is_sum = ts[pos] is Sum;
        let start = pos + 1;
        if start < ts.len() && ts[start] is LParen {
            let i1 = start + 1;
            if i1 < ts.len() && (ts[i1] matches TokenModel::Ident(kw) && kw == "from"@) {
                match p_expr(ts, i1 + 1) {
                    Err(e) => Err(e),
                    Ok((from_e, i2)) => if i2 < ts.len() && ts[i2] is Comma {
                        let i3 = i2 + 1;
                        if i3 < ts.len() && (ts[i3] matches TokenModel::Ident(kw) && kw == "to"@) {
                            if i2 < i1 {
                                Ok(None)
                            } else {
                                match p_expr(ts, i3 + 1) {
                                    Err(e) => Err(e),
                                    Ok((to_e, i4)) => if i4 < ts.len() && ts[i4] is Comma {
                                        let i5 = i4 + 1;
                                        if i5 < ts.len() && (ts[i5] matches TokenModel::Ident(kw)
                                            && kw == "para"@) {
                                            if i5 + 1 < ts.len() && (ts[i5 + 1] matches
                                                TokenModel::Ident(param)) {
                                                let i6 = i5 + 2;
                                                if i6 < ts.len() && ts[i6] is Comma {
                                                    if i4 < i3 {
                                                        Ok(None)
                                                    } else {
                                                        match p_expr(ts, i6 + 1) {
                                                            Err(e) => Err(e),
                                                            Ok((body_e, i7)) => if i7 < ts.len()
                                                                && ts[i7] is RParen {
                                                                let param_s = ts[i5 + 1]->Ident_0;
                                                                Ok(
                                                                    Some(
                                                                        (
                                                                            if is_sum {
                                                                                ExprModel::Sum {
                                                                                    from: Box::new(from_e),
                                                                                    to: Box::new(to_e),
                                                                                    param: param_s,
                                                                                    body: Box::new(body_e),
                                                                                }
                                                                            } else {
                                                                                ExprModel::Product {
                                                                                    from: Box::new(from_e),
                                                                                    to: Box::new(to_e),
                                                                                    param: param_s,
                                                                                    body: Box::new(body_e),
                                                                                }
                                                                            },
                                                                            i7 + 1,
                                                                        ),
                                                                    ),
                                                                )
                                                            } else {
                                                                Ok(None)
                                                            },
                                                        }
                                                    }
                                                } else {
                                                    Ok(None)
                                                }
                                            } else {
                                                Ok(None)
                                            }
                                        } else {
                                            Ok(None)
                                        }
                                    } else {
                                        Ok(None)
                                    },
                                }
                            }
                        } else {
                            Ok(None)
                        }
                    } else {
                        Ok(None)
                    },
                }
            } else {
                Ok(None)
            }
        } else {
            Ok(None)
        }
    } else {
        Ok(None)
    }
}

/// A factor.
pub open spec fn p_factor(ts: Seq<TokenModel>, pos: int) -> Parsed
    decreases ts.len() - pos, 2int,
{
    match p_sum_product(ts, pos) {
        Err(e) => Err(e),
        Ok(Some(r)) => Ok(r),
        Ok(None) => {
            if pos < 0 || pos >= ts.len() {
                Err(ParseError::UnexpectedEnd)
            } else {
                match p_factor_head(ts, pos) {
                    Err(e) => Err(e),
                    Ok((e, p)) => if p <= pos || p > ts.len() {
                        Err(ParseError::UnexpectedToken)
                    } else {
                        Ok(p_postfix(ts, p, e))
                    },
                }
            }
        },
    }
}


/// A factor that begins with an identifier: a user-function call or a plain
/// variable reference.
pub open spec fn p_factor_ident(ts: Seq<TokenModel>, pos: int, name: Seq<char>) -> Parsed
    decreases ts.len() - pos, 0int,
{
    if pos < 0 {
        Err(ParseError::UnexpectedEnd)
    } else if pos + 1 < ts.len() && ts[pos + 1] is LParen {
        match p_expr(ts, pos + 2) {
            Err(e) => Err(e),
            Ok((arg0, p0)) => if p0 < pos + 2 || p0 > ts.len() {
                Err(ParseError::UnexpectedToken)
            } else {
                match p_args(ts, p0, seq![arg0]) {
                    Err(e) => Err(e),
                    Ok((args, p1)) => if p1 < ts.len() && ts[p1] is RParen {
                        if args.len() == 1 {
                            Ok(
                                (
                                    ExprModel::FunctionCall { name, arg: Box::new(args[0]) },
                                    p1 + 1,
                                ),
                            )
                        } else {
                            Ok(
                                (
                                    ExprModel::FunctionCall {
                                        name,
                                        arg: Box::new(ExprModel::Sequence(args)),
                                    },
                                    p1 + 1,
                                ),
                            )
                        }
                    } else {
                        Err(ParseError::ExpectedClosingParenCall)
                    },
                }
            },
        }
    } else {
        Ok((ExprModel::Ident(name), pos + 1))
    }
}

/// A factor that begins with a built-in function's name.
pub open spec fn p_factor_fun(ts: Seq<TokenModel>, pos: int, f: SpecialFunction) -> Parsed
    decreases ts.len() - pos, 0int,
{
    if pos < 0 {
        Err(ParseError::UnexpectedEnd)
    } else if pos + 1 < ts.len() && ts[pos + 1] is LParen {
        if pos + 2 < ts.len() && ts[pos + 2] is RParen {
            // No arguments: an empty sequence.
            Ok(
                (
                    ExprModel::Function {
                        func: f,
                        arg: Box::new(ExprModel::Sequence(Seq::empty())),
                    },
                    pos + 3,
                ),
            )
        } else {
            match p_expr(ts, pos + 2) {
                Err(e) => Err(e),
                Ok((arg0, p0)) => if p0 < pos + 2 || p0 > ts.len() {
                    Err(ParseError::UnexpectedToken)
                } else {
                    match p_args(ts, p0, seq![arg0]) {
                        Err(e) => Err(e),
                        Ok((args, p1)) => if p1 < ts.len() && ts[p1] is RParen {
                            Ok(
                                (
                                    ExprModel::Function {
                                        func: f,
                                        arg: Box::new(ExprModel::Sequence(args)),
                                    },
                                    p1 + 1,
                                ),
                            )
                        } else {
                            Err(ParseError::ExpectedClosingParenArgs)
                        },
                    }
                },
            }
        }
    } else {
        Err(ParseError::ExpectedOpeningParen)
    }
}

/// A factor before its postfix factorials.
pub open spec fn p_factor_head(ts: Seq<TokenModel>, pos: int) -> Parsed
    decreases ts.len() - pos, 1int,
{
    if pos < 0 || pos >= ts.len() {
        Err(ParseError::UnexpectedEnd)
    } else {
        match ts[pos] {
                    TokenModel::Operator(BinaryOperator::Minus) => {
                        // Unary minus: zero minus the factor.
                        match p_factor(ts, pos + 1) {
                            Err(e) => Err(e),
                            Ok((e, p)) => Ok(
                                (
                                    ExprModel::BinaryOp {
                                        left: Box::new(ExprModel::Number("0"@)),
                                        op: BinaryOperator::Minus,
                                        right: Box::new(e),
                                    },
                                    p,
                                ),
                            ),
                        }
                    },
                    TokenModel::Pipe => {
                        // Absolute value: |expr|.
                        match p_expr(ts, pos + 1) {
                            Err(e) => Err(e),
                            Ok((inner, p)) => if p < ts.len() && ts[p] is Pipe {
                                Ok(
                                    (
                                        ExprModel::Function {
                                            func: SpecialFunction::Abs,
                                            arg: Box::new(inner),
                                        },
                                        p + 1,
                                    ),
                                )
                            } else {
                                Err(ParseError::ExpectedClosingPipe)
                            },
                        }
                    },
                    TokenModel::Number(t) => Ok((ExprModel::Number(t), pos + 1)),
                    TokenModel::Ident(name) => p_factor_ident(ts, pos, name),
                    TokenModel::Function(f) => p_factor_fun(ts, pos, f),
                    TokenModel::LParen => {
                        match p_expr(ts, pos + 1) {
                            Err(e) => Err(e),
                            Ok((inner, p)) => if p < ts.len() && ts[p] is RParen {
                                Ok((inner, p + 1))
                            } else {
                                Err(ParseError::ExpectedClosingParen)
                            },
                        }
                    },
                    TokenModel::Operator(_) => Err(ParseError::OperatorMisplaced),
                    _ => Err(ParseError::UnexpectedToken),
        }
    }
}

/// Postfix factorial, applied left to right any number of times.
pub open spec fn p_postfix(ts: Seq<TokenModel>, pos: int, e: ExprModel) -> (ExprModel, int)
    decreases ts.len() - pos,
{
    if 0 <= pos < ts.len() && ts[pos] == TokenModel::Function(SpecialFunction::Fact) {
        p_postfix(
            ts,
            pos + 1,
            ExprModel::Function { func: SpecialFunction::Fact, arg: Box::new(e) },
        )
    } else {
        (e, pos)
    }
}

/// Further comma-separated arguments.
pub open spec fn p_args(ts: Seq<TokenModel>, pos: int, acc: Seq<ExprModel>) -> Result<
    (Seq<ExprModel>, int),
    ParseError,
>
    decreases ts.len() - pos, 2int,
{
    if 0 <= pos < ts.len() && ts[pos] is Comma {
        match p_expr(ts, pos + 1) {
            Err(e) => Err(e),
            Ok((e, p)) => if p <= pos + 1 || p > ts.len() {
                Err(ParseError::UnexpectedToken)
            } else {
                p_args(ts, p, acc.push(e))
            },
        }
    } else {
        Ok((acc, pos))
    }
}

/// Right-associative powers.
pub open spec fn p_power(ts: Seq<TokenModel>, pos: int) -> Parsed
    decreases ts.len() - pos, 3int,
{
    match p_factor(ts, pos) {
        Err(e) => Err(e),
        Ok((l, p)) => if p <= pos || p > ts.len() {
            Err(ParseError::UnexpectedToken)
        } else {
            p_power_tail(ts, p, l)
        },
    }
}

/// The `^` chain after a factor.
pub open spec fn p_power_tail(ts: Seq<TokenModel>, pos: int, left: ExprModel) -> Parsed
    decreases ts.len() - pos, 4int,
{
    if 0 <= pos < ts.len() && ts[pos] == TokenModel::Operator(BinaryOperator::Pow) {
        match p_power(ts, pos + 1) {
            Err(e) => Err(e),
            Ok((r, p2)) => if p2 <= pos + 1 || p2 > ts.len() {
                Err(ParseError::UnexpectedToken)
            } else {
                p_power_tail(
                    ts,
                    p2,
                    ExprModel::BinaryOp {
                        left: Box::new(left),
                        op: BinaryOperator::Pow,
                        right: Box::new(r),
                    },
                )
            },
        }
    } else {
        Ok((left, pos))
    }
}

/// Left-associative products and quotients.
pub open spec fn p_term(ts: Seq<TokenModel>, pos: int) -> Parsed
    decreases ts.len() - pos, 5int,
{
    match p_power(ts, pos) {
        Err(e) => Err(e),
        Ok((l, p)) => if p <= pos || p > ts.len() {
            Err(ParseError::UnexpectedToken)
        } else {
            p_term_tail(ts, p, l)
        },
    }
}

/// The `*` / `/` chain after a power.
pub open spec fn p_term_tail(ts: Seq<TokenModel>, pos: int, left: ExprModel) -> Parsed
    decreases ts.len() - pos, 6int,
{
    if 0 <= pos < ts.len() && (ts[pos] == TokenModel::Operator(BinaryOperator::Star) || ts[pos]
        == TokenModel::Operator(BinaryOperator::Slash)) {
        let op = if ts[pos] == TokenModel::Operator(BinaryOperator::Star) {
            BinaryOperator::Star
        } else {
            BinaryOperator::Slash
        };
        match p_power(ts, pos + 1) {
            Err(e) => Err(e),
            Ok((r, p2)) => if p2 <= pos + 1 || p2 > ts.len() {
                Err(ParseError::UnexpectedToken)
            } else {
                p_term_tail(
                    ts,
                    p2,
                    ExprModel::BinaryOp { left: Box::new(left), op, right: Box::new(r) },
                )
            },
        }
    } else {
        Ok((left, pos))
    }
}

/// Left-associative sums and differences: a whole expression.
pub open spec fn p_expr(ts: Seq<TokenModel>, pos: int) -> Parsed
    decreases ts.len() - pos, 7int,
{
    match p_term(ts, pos) {
        Err(e) => Err(e),
        Ok((l, p)) => if p <= pos || p > ts.len() {
            Err(ParseError::UnexpectedToken)
        } else {
            p_expr_tail(ts, p, l)
        },
    }
}

/// The `+` / `-` chain after a term.
pub open spec fn p_expr_tail(ts: Seq<TokenModel>, pos: int, left: ExprModel) -> Parsed
    decreases ts.len() - pos, 8int,
{
    if 0 <= pos < ts.len() && (ts[pos] == TokenModel::Operator(BinaryOperator::Plus) || ts[pos]
        == TokenModel::Operator(BinaryOperator::Minus)) {
        let op = if ts[pos] == TokenModel::Operator(BinaryOperator::Plus) {
            BinaryOperator::Plus
        } else {
            BinaryOperator::Minus
        };
        match p_term(ts, pos + 1) {
            Err(e) => Err(e),
            Ok((r, p2)) => if p2 <= pos + 1 || p2 > ts.len() {
                Err(ParseError::UnexpectedToken)
            } else {
                p_expr_tail(
                    ts,
                    p2,
                    ExprModel::BinaryOp { left: Box::new(left), op, right: Box::new(r) },
                )
            },
        }
    } else {
        Ok((left, pos))
    }
}

/// A statement: a function definition, a `var` assignment, or an
/// expression.
pub open spec fn p_statement(ts: Seq<TokenModel>, pos: int) -> Parsed
    decreases ts.len() - pos, 9int,
{
    if def_shape(ts, pos) {
        match p_expr(ts, pos + 6) {
            Err(e) => Err(e),
            Ok((body, p)) => Ok(
                (
                    ExprModel::FunctionDef {
                        name: ts[pos + 1]->Ident_0,
                        arg: ts[pos + 3]->Ident_0,
                        body: Box::new(body),
                    },
                    p,
                ),
            ),
        }
    } else if pos + 2 < ts.len() && 0 <= pos && ts[pos] is Var && (ts[pos + 1] matches
        TokenModel::Ident(_)) && ts[pos + 2] is Assign {
        match p_expr(ts, pos + 3) {
            Err(e) => Err(e),
            Ok((e, p)) => Ok(
                (ExprModel::Assign { name: ts[pos + 1]->Ident_0, expr: Box::new(e) }, p),
            ),
        }
    } else {
        p_expr(ts, pos)
    }
}

/// The head shape of a function definition:
/// `def name ( param ) = ...`.
pub open spec fn def_shape(ts: Seq<TokenModel>, pos: int) -> bool {
    &&& 0 <= pos
    &&& pos + 5 < ts.len()
    &&& true
    &&& ts[pos] is Def
    &&& ts[pos + 1] matches TokenModel::Ident(_)
    &&& ts[pos + 2] is LParen
    &&& ts[pos + 3] matches TokenModel::Ident(_)
    &&& ts[pos + 4] is RParen
    &&& ts[pos + 5] is Assign
}

/// One parsed source: the statements' models and the function table's model,
/// walking the token lines in order.  A definition line that does not match
/// the definition shape is dropped; a statement line with trailing tokens is
/// an error; a later definition of the same name wins.
pub open spec fn p_lines(
    lm: Seq<Seq<TokenModel>>,
    i: int,
    stmts: Seq<ExprModel>,
    funcs: Map<Seq<char>, FnDefModel>,
) -> Result<(Seq<ExprModel>, Map<Seq<char>, FnDefModel>), ParseError>
    decreases lm.len() - i,
{
    if i < 0 || i >= lm.len() {
        Ok((stmts, funcs))
    } else {
        let ts = lm[i];
        if ts.len() == 0 {
            p_lines(lm, i + 1, stmts, funcs)
        } else if ts[0] is Def {
            if def_shape(ts, 0) {
                match p_expr(ts, 6) {
                    Err(e) => Err(e),
                    // Tokens after the body are ignored on definition lines.
                    Ok((body, _)) => p_lines(
                        lm,
                        i + 1,
                        stmts,
                        funcs.insert(
                            ts[1]->Ident_0,
                            FnDefModel { param: ts[3]->Ident_0, body },
                        ),
                    ),
                }
            } else {
                // A malformed definition line is silently dropped.
                p_lines(lm, i + 1, stmts, funcs)
            }
        } else {
            match p_statement(ts, 0) {
                Err(e) => Err(e),
                Ok((e, p)) => if p < ts.len() {
                    Err(ParseError::TrailingTokens)
                } else {
                    p_lines(lm, i + 1, stmts.push(e), funcs)
                },
            }
        }
    }
}

/// The whole parse: one statement is returned bare, any other number as a
/// sequence.
pub open spec fn p_parse(lm: Seq<Seq<TokenModel>>) -> Result<
    (ExprModel, Map<Seq<char>, FnDefModel>),
    ParseError,
> {
    match p_lines(lm, 0, Seq::empty(), Map::empty()) {
        Err(e) => Err(e),
        Ok((stmts, funcs)) => if stmts.len() == 1 {
            Ok((stmts[0], funcs))
        } else {
            Ok((ExprModel::Sequence(stmts), funcs))
        },
    }
}


/// Parses one expression.
#[verifier::loop_isolation(false)]
pub fn parse_expr(ts: &Vec<Token>, pos: usize) -> (r: Result<(Expr, usize), ParseError>)
    ensures
        match r {
            Ok((e, p)) => p_expr(tokens_view(*ts), pos as int) == Ok::<(ExprModel, int), ParseError>(
                (expr_model(e), p as int),
            ) && pos < p <= ts@.len(),
            Err(er) => p_expr(tokens_view(*ts), pos as int) == Err::<(ExprModel, int), ParseError>(
                er,
            ),
        },
    decreases ts@.len() - pos, 7int,
{
    let ghost tv = tokens_view(*ts);
    let (l0, p0) = match parse_term(ts, pos) {
        Ok(x) => x,
        Err(e) => { return Err(e); },
    };
    let mut left = l0;
    let mut p = p0;
    while p < ts.len() && (matches!(&ts[p], Token::Operator(BinaryOperator::Plus)) || matches!(
        &ts[p],
        Token::Operator(BinaryOperator::Minus),
    ))
        invariant
            pos < p <= ts@.len(),
            p_expr(tv, pos as int) == p_expr_tail(tv, p as int, expr_model(left)),
        decreases ts@.len() - p,
    {
        let op = if matches!(&ts[p], Token::Operator(BinaryOperator::Plus)) {
            BinaryOperator::Plus
        } else {
            BinaryOperator::Minus
        };
        proof {
            assert(tv[p as int] == ts@[p as int]@);
        }
        let (r2, p2) = match parse_term(ts, p + 1) {
            Ok(x) => x,
            Err(e) => { return Err(e); },
        };
        left = Expr::BinaryOp { left: Box::new(left), op, right: Box::new(r2) };
        p = p2;
    }
    proof {
        if p < ts@.len() {
            assert(tv[p as int] == ts@[p as int]@);
        }
    }
    Ok((left, p))
}

/// Parses one term.
#[verifier::loop_isolation(false)]
pub fn parse_term(ts: &Vec<Token>, pos: usize) -> (r: Result<(Expr, usize), ParseError>)
    ensures
        match r {
            Ok((e, p)) => p_term(tokens_view(*ts), pos as int) == Ok::<(ExprModel, int), ParseError>(
                (expr_model(e), p as int),
            ) && pos < p <= ts@.len(),
            Err(er) => p_term(tokens_view(*ts), pos as int) == Err::<(ExprModel, int), ParseError>(
                er,
            ),
        },
    decreases ts@.len() - pos, 5int,
{
    let ghost tv = tokens_view(*ts);
    let (l0, p0) = match parse_power(ts, pos) {
        Ok(x) => x,
        Err(e) => { return Err(e); },
    };
    let mut left = l0;
    let mut p = p0;
    while p < ts.len() && (matches!(&ts[p], Token::Operator(BinaryOperator::Star)) || matches!(
        &ts[p],
        Token::Operator(BinaryOperator::Slash),
    ))
        invariant
            pos < p <= ts@.len(),
            p_term(tv, pos as int) == p_term_tail(tv, p as int, expr_model(left)),
        decreases ts@.len() - p,
    {
        let op = if matches!(&ts[p], Token::Operator(BinaryOperator::Star)) {
            BinaryOperator::Star
        } else {
            BinaryOperator::Slash
        };
        proof {
            assert(tv[p as int] == ts@[p as int]@);
        }
        let (r2, p2) = match parse_power(ts, p + 1) {
            Ok(x) => x,
            Err(e) => { return Err(e); },
        };
        left = Expr::BinaryOp { left: Box::new(left), op, right: Box::new(r2) };
        p = p2;
    }
    proof {
        if p < ts@.len() {
            assert(tv[p as int] == ts@[p as int]@);
        }
    }
    Ok((left, p))
}

/// Parses one power chain (right-associative).
#[verifier::loop_isolation(false)]
pub fn parse_power(ts: &Vec<Token>, pos: usize) -> (r: Result<(Expr, usize), ParseError>)
    ensures
        match r {
            Ok((e, p)) => p_power(tokens_view(*ts), pos as int) == Ok::<
                (ExprModel, int),
                ParseError,
            >((expr_model(e), p as int)) && pos < p <= ts@.len(),
            Err(er) => p_power(tokens_view(*ts), pos as int) == Err::<(ExprModel, int), ParseError>(
                er,
            ),
        },
    decreases ts@.len() - pos, 3int,
{
    let ghost tv = tokens_view(*ts);
    let (l0, p0) = match parse_factor(ts, pos) {
        Ok(x) => x,
        Err(e) => { return Err(e); },
    };
    let mut left = l0;
    let mut p = p0;
    while p < ts.len() && matches!(&ts[p], Token::Operator(BinaryOperator::Pow))
        invariant
            pos < p <= ts@.len(),
            p_power(tv, pos as int) == p_power_tail(tv, p as int, expr_model(left)),
        decreases ts@.len() - p,
    {
        proof {
            assert(tv[p as int] == ts@[p as int]@);
        }
        let (r2, p2) = match parse_power(ts, p + 1) {
            Ok(x) => x,
            Err(e) => { return Err(e); },
        };
        left = Expr::BinaryOp {
            left: Box::new(left),
            op: BinaryOperator::Pow,
            right: Box::new(r2),
        };
        p = p2;
    }
    proof {
        if p < ts@.len() {
            assert(tv[p as int] == ts@[p as int]@);
        }
    }
    Ok((left, p))
}

/// Parses further comma-separated arguments after the first.
#[verifier::loop_isolation(false)]
fn parse_args(ts: &Vec<Token>, pos: usize, first: Expr) -> (r: Result<
    (Vec<Expr>, usize),
    ParseError,
>)
    requires
        pos <= ts@.len(),
    ensures
        match r {
            Ok((args, p)) => p_args(tokens_view(*ts), pos as int, seq![expr_model(first)]) == Ok::<
                (Seq<ExprModel>, int),
                ParseError,
            >((exprs_model(args@), p as int)) && pos <= p <= ts@.len() && args@.len() >= 1,
            Err(er) => p_args(tokens_view(*ts), pos as int, seq![expr_model(first)]) == Err::<
                (Seq<ExprModel>, int),
                ParseError,
            >(er),
        },
    decreases ts@.len() - pos, 2int,
{
    let ghost tv = tokens_view(*ts);
    let ghost m0 = expr_model(first);
    let mut acc: Vec<Expr> = Vec::new();
    acc.push(first);
    proof {
        lemma_exprs_model_len(acc@);
        assert(exprs_model(acc@) =~= seq![m0]);
    }
    let mut p = pos;
    while p < ts.len() && matches!(&ts[p], Token::Comma)
        invariant
            pos <= p <= ts@.len(),
            acc@.len() >= 1,
            p_args(tv, pos as int, seq![m0]) == p_args(tv, p as int, exprs_model(acc@)),
        decreases ts@.len() - p,
    {
        proof {
            assert(tv[p as int] == ts@[p as int]@);
        }
        let (e2, p2) = match parse_expr(ts, p + 1) {
            Ok(x) => x,
            Err(e) => { return Err(e); },
        };
        let ghost acc0 = acc@;
        acc.push(e2);
        proof {
            lemma_exprs_model_len(acc0);
            lemma_exprs_model_len(acc@);
            assert forall|j: int| 0 <= j < acc@.len() implies exprs_model(acc@)[j] == exprs_model(
                acc0,
            ).push(expr_model(e2))[j] by {
                assert(exprs_model(acc@)[j] == expr_model(acc@[j]));
                if j < acc0.len() {
                    assert(acc@[j] == acc0[j]);
                    assert(exprs_model(acc0)[j] == expr_model(acc0[j]));
                } else {
                    assert(acc@[j] == e2);
                }
            }
            assert(exprs_model(acc@) =~= exprs_model(acc0).push(expr_model(e2)));
        }
        p = p2;
    }
    proof {
        if p < ts@.len() {
            assert(tv[p as int] == ts@[p as int]@);
        }
    }
    Ok((acc, p))
}


/// Parses the loop forms; anything that does not match their exact shape
/// falls through.
#[verifier::loop_isolation(false)]
#[verifier::rlimit(100)]
#[verifier::spinoff_prover]
fn parse_sum_product(ts: &Vec<Token>, pos: usize) -> (r: Result<
    Option<(Expr, usize)>,
    ParseError,
>)
    ensures
        match r {
            Ok(Some((e, p))) => p_sum_product(tokens_view(*ts), pos as int) == Ok::<
                Option<(ExprModel, int)>,
                ParseError,
            >(Some((expr_model(e), p as int))) && pos < p <= ts@.len(),
            Ok(None) => p_sum_product(tokens_view(*ts), pos as int) == Ok::<
                Option<(ExprModel, int)>,
                ParseError,
            >(None),
            Err(er) => p_sum_product(tokens_view(*ts), pos as int) == Err::<
                Option<(ExprModel, int)>,
                ParseError,
            >(er),
        },
    decreases ts@.len() - pos, 0int,
{
    let ghost tv = tokens_view(*ts);
    proof {
        vstd::std_specs::vec::axiom_spec_len(ts);
        if pos < ts@.len() {
            assert(tv[pos as int] == ts@[pos as int]@);
        }
    }
    if !(pos < ts.len() && (matches!(&ts[pos], Token::Sum) || matches!(&ts[pos], Token::Product))) {
        return Ok(None);
    }
    let is_sum = matches!(&ts[pos], Token::Sum);
    let start = pos + 1;
    proof {
        if start < ts@.len() {
            assert(tv[start as int] == ts@[start as int]@);
        }
    }
    if !(start < ts.len() && matches!(&ts[start], Token::LParen)) {
        return Ok(None);
    }
    let i1 = start + 1;
    proof {
        if i1 < ts@.len() {
            assert(tv[i1 as int] == ts@[i1 as int]@);
        }
    }
    let from_ok = i1 < ts.len() && (match &ts[i1] {
        Token::Ident(kw) => *kw == String::from_str("from"),
        _ => false,
    });
    if !from_ok {
        return Ok(None);
    }
    let (from_e, i2) = match parse_expr(ts, i1 + 1) {
        Ok(x) => x,
        Err(e) => { return Err(e); },
    };
    proof {
        if i2 < ts@.len() {
            assert(tv[i2 as int] == ts@[i2 as int]@);
        }
    }
    if !(i2 < ts.len() && matches!(&ts[i2], Token::Comma)) {
        return Ok(None);
    }
    let i3 = i2 + 1;
    proof {
        if i3 < ts@.len() {
            assert(tv[i3 as int] == ts@[i3 as int]@);
        }
    }
    let to_ok = i3 < ts.len() && (match &ts[i3] {
        Token::Ident(kw) => *kw == String::from_str("to"),
        _ => false,
    });
    if !to_ok {
        return Ok(None);
    }
    let (to_e, i4) = match parse_expr(ts, i3 + 1) {
        Ok(x) => x,
        Err(e) => { return Err(e); },
    };
    proof {
        if i4 < ts@.len() {
            assert(tv[i4 as int] == ts@[i4 as int]@);
        }
    }
    if !(i4 < ts.len() && matches!(&ts[i4], Token::Comma)) {
        return Ok(None);
    }
    let i5 = i4 + 1;
    proof {
        if i5 < ts@.len() {
            assert(tv[i5 as int] == ts@[i5 as int]@);
        }
    }
    let para_ok = i5 < ts.len() && (match &ts[i5] {
        Token::Ident(kw) => *kw == String::from_str("para"),
        _ => false,
    });
    if !para_ok {
        return Ok(None);
    }
    proof {
        if i5 + 1 < ts@.len() {
            assert(tv[i5 + 1int] == ts@[i5 + 1int]@);
        }
    }
    if !(i5 + 1 < ts.len() && matches!(&ts[i5 + 1], Token::Ident(_))) {
        return Ok(None);
    }
    let param = match &ts[i5 + 1] {
        Token::Ident(name) => name.clone(),
        _ => { return Ok(None); },
    };
    let i6 = i5 + 2;
    proof {
        if i6 < ts@.len() {
            assert(tv[i6 as int] == ts@[i6 as int]@);
        }
    }
    if !(i6 < ts.len() && matches!(&ts[i6], Token::Comma)) {
        return Ok(None);
    }
    let (body_e, i7) = match parse_expr(ts, i6 + 1) {
        Ok(x) => x,
        Err(e) => { return Err(e); },
    };
    proof {
        if i7 < ts@.len() {
            assert(tv[i7 as int] == ts@[i7 as int]@);
        }
    }
    if !(i7 < ts.len() && matches!(&ts[i7], Token::RParen)) {
        return Ok(None);
    }
    let e = if is_sum {
        Expr::Sum {
            from: Box::new(from_e),
            to: Box::new(to_e),
            param,
            body: Box::new(body_e),
        }
    } else {
        Expr::Product {
            from: Box::new(from_e),
            to: Box::new(to_e),
            param,
            body: Box::new(body_e),
        }
    };
    Ok(Some((e, i7 + 1)))
}

/// Parses one factor, postfix factorials included.
#[verifier::loop_isolation(false)]
pub fn parse_factor(ts: &Vec<Token>, pos: usize) -> (r: Result<(Expr, usize), ParseError>)
    ensures
        match r {
            Ok((e, p)) => p_factor(tokens_view(*ts), pos as int) == Ok::<
                (ExprModel, int),
                ParseError,
            >((expr_model(e), p as int)) && pos < p <= ts@.len(),
            Err(er) => p_factor(tokens_view(*ts), pos as int) == Err::<(ExprModel, int), ParseError>(
                er,
            ),
        },
    decreases ts@.len() - pos, 2int,
{
    let ghost tv = tokens_view(*ts);
    match parse_sum_product(ts, pos) {
        Ok(Some(x)) => { return Ok(x); },
        Ok(None) => {},
        Err(e) => { return Err(e); },
    }
    if pos >= ts.len() {
        return Err(ParseError::UnexpectedEnd);
    }
    proof {
        assert(tv[pos as int] == ts@[pos as int]@);
        if pos + 1 < ts@.len() {
            assert(tv[pos + 1int] == ts@[pos + 1int]@);
        }
        if pos + 2 < ts@.len() {
            assert(tv[pos + 2int] == ts@[pos + 2int]@);
        }
    }
    let head = parse_factor_head(ts, pos);
    let (e0, p0) = match head {
        Ok(x) => x,
        Err(e) => { return Err(e); },
    };
    // Postfix factorial, any number of times.
    let mut e = e0;
    let mut p = p0;
    while p < ts.len() && matches!(&ts[p], Token::Function(SpecialFunction::Fact))
        invariant
            pos < p <= ts@.len(),
            p_factor(tv, pos as int) == Ok::<(ExprModel, int), ParseError>(
                p_postfix(tv, p as int, expr_model(e)),
            ),
        decreases ts@.len() - p,
    {
        proof {
            assert(tv[p as int] == ts@[p as int]@);
        }
        e = Expr::Function { func: SpecialFunction::Fact, arg: Box::new(e) };
        p = p + 1;
    }
    proof {
        if p < ts@.len() {
            assert(tv[p as int] == ts@[p as int]@);
        }
    }
    Ok((e, p))
}

/// Parses one statement: a function definition, a `var` assignment, or an
/// expression.
pub fn parse_statement(ts: &Vec<Token>, pos: usize) -> (r: Result<(Expr, usize), ParseError>)
    ensures
        match r {
            Ok((e, p)) => p_statement(tokens_view(*ts), pos as int) == Ok::<
                (ExprModel, int),
                ParseError,
            >((expr_model(e), p as int)) && pos < p <= ts@.len(),
            Err(er) => p_statement(tokens_view(*ts), pos as int) == Err::<
                (ExprModel, int),
                ParseError,
            >(er),
        },
    decreases ts@.len() - pos, 9int,
{
    let ghost tv = tokens_view(*ts);
    proof {
        vstd::std_specs::vec::axiom_spec_len(ts);
        let ghost m = ts@.len() as int;
        assert forall|k: int| 0 <= k < m implies tv[k] == (#[trigger] ts@[k])@ by {}
    }
    if def_head(ts, pos) {
        let name = match &ts[pos + 1] {
            Token::Ident(n) => n.clone(),
            _ => { return Err(ParseError::UnexpectedToken); },
        };
        let arg = match &ts[pos + 3] {
            Token::Ident(n) => n.clone(),
            _ => { return Err(ParseError::UnexpectedToken); },
        };
        match parse_expr(ts, pos + 6) {
            Err(e) => Err(e),
            Ok((body, p)) => Ok(
                (Expr::FunctionDef { name, arg, body: Box::new(body) }, p),
            ),
        }
    } else if ts.len() >= 3 && pos < ts.len() - 2 && matches!(&ts[pos], Token::Var) && matches!(
        &ts[pos + 1],
        Token::Ident(_),
    ) && matches!(&ts[pos + 2], Token::Assign) {
        let name = match &ts[pos + 1] {
            Token::Ident(n) => n.clone(),
            _ => { return Err(ParseError::UnexpectedToken); },
        };
        match parse_expr(ts, pos + 3) {
            Err(e) => Err(e),
            Ok((e, p)) => Ok((Expr::Assign { name, expr: Box::new(e) }, p)),
        }
    } else {
        parse_expr(ts, pos)
    }
}

/// The executable twin of `def_shape`.
fn def_head(ts: &Vec<Token>, pos: usize) -> (r: bool)
    ensures
        r == def_shape(tokens_view(*ts), pos as int),
{
    let ghost tv = tokens_view(*ts);
    proof {
        assert forall|k: int| 0 <= k < ts@.len() implies tv[k] == (#[trigger] ts@[k])@ by {}
    }
    ts.len() >= 6 && pos < ts.len() - 5 && matches!(&ts[pos], Token::Def) && matches!(
        &ts[pos + 1],
        Token::Ident(_),
    ) && matches!(&ts[pos + 2], Token::LParen) && matches!(&ts[pos + 3], Token::Ident(_))
        && matches!(&ts[pos + 4], Token::RParen) && matches!(&ts[pos + 5], Token::Assign)
}

/// Parses token lines into the main expression and the user-function table.
/// Definition lines fill the table (a later definition of a name wins) and
/// are left out of the main expression; the other lines are statements, and
/// more than one statement, or none, becomes a sequence.
#[verifier::loop_isolation(false)]
pub fn parse(lines: Vec<Vec<Token>>) -> (r: Result<(Expr, FunctionTable), ParseError>)
    ensures
        match r {
            Ok((e, ft)) => p_parse(crate::lexer::lines_view(lines)) matches Ok(pr) && pr.0
                == expr_model(e) && pr.1 == ft@,
            Err(er) => p_parse(crate::lexer::lines_view(lines)) == Err::<
                (ExprModel, Map<Seq<char>, FnDefModel>),
                ParseError,
            >(er),
        },
{
    let ghost lv = crate::lexer::lines_view(lines);
    let mut stmts: Vec<Expr> = Vec::new();
    let mut funcs = FunctionTable::new();
    let mut i: usize = 0;
    proof {
        lemma_exprs_model_len(stmts@);
        assert(exprs_model(stmts@) =~= Seq::<ExprModel>::empty());
    }
    while i < lines.len()
        invariant
            0 <= i <= lines@.len(),
            lv == crate::lexer::lines_view(lines),
            p_lines(lv, 0, Seq::empty(), Map::empty()) == p_lines(
                lv,
                i as int,
                exprs_model(stmts@),
                funcs@,
            ),
        decreases lines@.len() - i,
    {
        let ghost i0 = i as int;
        let ts = &lines[i];
        let ghost tv = tokens_view(*ts);
        proof {
            assert(lv[i0] == tv);
        }
        if ts.len() == 0 {
        } else if matches!(&ts[0], Token::Def) {
            proof {
                assert(tv[0] == ts@[0]@);
            }
            if def_head(ts, 0) {
                let name = match &ts[1] {
                    Token::Ident(n) => n.clone(),
                    _ => { return Err(ParseError::UnexpectedToken); },
                };
                let argn = match &ts[3] {
                    Token::Ident(n) => n.clone(),
                    _ => { return Err(ParseError::UnexpectedToken); },
                };
                proof {
                    assert(tv[1] == ts@[1]@);
                    assert(tv[3] == ts@[3]@);
                }
                let (body, _rest) = match parse_expr(ts, 6) {
                    Ok(x) => x,
                    Err(e) => { return Err(e); },
                };
                funcs.define(name, argn, body);
            }
        } else {
            let (e, p) = match parse_statement(ts, 0) {
                Ok(x) => x,
                Err(e) => { return Err(e); },
            };
            if p < ts.len() {
                return Err(ParseError::TrailingTokens);
            }
            let ghost st0 = stmts@;
            stmts.push(e);
            proof {
                lemma_exprs_model_len(st0);
                lemma_exprs_model_len(stmts@);
                assert forall|j: int| 0 <= j < stmts@.len() implies exprs_model(stmts@)[j]
                    == exprs_model(st0).push(expr_model(stmts@.last()))[j] by {
                    assert(exprs_model(stmts@)[j] == expr_model(stmts@[j]));
                    if j < st0.len() {
                        assert(stmts@[j] == st0[j]);
                        assert(exprs_model(st0)[j] == expr_model(st0[j]));
                    }
                }
                assert(exprs_model(stmts@) =~= exprs_model(st0).push(expr_model(stmts@.last())));
            }
        }
        i = i + 1;
    }
    proof {
        lemma_exprs_model_len(stmts@);
    }
    if stmts.len() == 1 {
        let e = match stmts.pop() {
            Some(x) => x,
            None => { return Err(ParseError::UnexpectedToken); },
        };
        Ok((e, funcs))
    } else {
        Ok((Expr::Sequence(stmts), funcs))
    }
}


/// Parses one factor before its postfix factorials.
#[verifier::rlimit(100)]
#[verifier::spinoff_prover]
fn parse_factor_head(ts: &Vec<Token>, pos: usize) -> (r: Result<(Expr, usize), ParseError>)
    requires
        pos < ts@.len(),
    ensures
        match r {
            Ok((e, p)) => p_factor_head(tokens_view(*ts), pos as int) == Ok::<
                (ExprModel, int),
                ParseError,
            >((expr_model(e), p as int)) && pos < p <= ts@.len(),
            Err(er) => p_factor_head(tokens_view(*ts), pos as int) == Err::<
                (ExprModel, int),
                ParseError,
            >(er),
        },
    decreases ts@.len() - pos, 1int,
{
    let ghost tv = tokens_view(*ts);
    proof {
        vstd::std_specs::vec::axiom_spec_len(ts);
        assert(tv[pos as int] == ts@[pos as int]@);
        if pos + 1 < ts@.len() {
            assert(tv[pos + 1int] == ts@[pos + 1int]@);
        }
        if pos + 2 < ts@.len() {
            assert(tv[pos + 2int] == ts@[pos + 2int]@);
        }
    }
    let r: Result<(Expr, usize), ParseError> = match &ts[pos] {
        Token::Operator(BinaryOperator::Minus) => {
            match parse_factor(ts, pos + 1) {
                Err(e) => Err(e),
                Ok((e, p)) => {
                    let zero = Expr::Number(String::from_str("0"));
                    proof {
                        assert(expr_model(zero) == ExprModel::Number("0"@));
                    }
                    Ok(
                        (
                            Expr::BinaryOp {
                                left: Box::new(zero),
                                op: BinaryOperator::Minus,
                                right: Box::new(e),
                            },
                            p,
                        ),
                    )
                },
            }
        },
        Token::Pipe => {
            match parse_expr(ts, pos + 1) {
                Err(e) => Err(e),
                Ok((inner, p)) => {
                    proof {
                        if p < ts@.len() {
                            assert(tv[p as int] == ts@[p as int]@);
                        }
                    }
                    if p < ts.len() && matches!(&ts[p], Token::Pipe) {
                        Ok(
                            (
                                Expr::Function {
                                    func: SpecialFunction::Abs,
                                    arg: Box::new(inner),
                                },
                                p + 1,
                            ),
                        )
                    } else {
                        Err(ParseError::ExpectedClosingPipe)
                    }
                },
            }
        },
        Token::Number(t) => Ok((Expr::Number(t.clone()), pos + 1)),
        Token::Ident(name) => parse_ident_factor(ts, pos, name),
        Token::Function(f) => parse_fun_factor(ts, pos, *f),
        Token::LParen => {
            match parse_expr(ts, pos + 1) {
                Err(e) => Err(e),
                Ok((inner, p)) => {
                    proof {
                        if p < ts@.len() {
                            assert(tv[p as int] == ts@[p as int]@);
                        }
                    }
                    if p < ts.len() && matches!(&ts[p], Token::RParen) {
                        Ok((inner, p + 1))
                    } else {
                        Err(ParseError::ExpectedClosingParen)
                    }
                },
            }
        },
        Token::Operator(_) => Err(ParseError::OperatorMisplaced),
        _ => Err(ParseError::UnexpectedToken),
    };
    r
}


/// Parses a factor that begins with an identifier.
#[verifier::rlimit(100)]
#[verifier::spinoff_prover]
fn parse_ident_factor(ts: &Vec<Token>, pos: usize, name: &String) -> (r: Result<
    (Expr, usize),
    ParseError,
>)
    requires
        pos < ts@.len(),
    ensures
        match r {
            Ok((e, p)) => p_factor_ident(tokens_view(*ts), pos as int, name@) == Ok::<
                (ExprModel, int),
                ParseError,
            >((expr_model(e), p as int)) && pos < p <= ts@.len(),
            Err(er) => p_factor_ident(tokens_view(*ts), pos as int, name@) == Err::<
                (ExprModel, int),
                ParseError,
            >(er),
        },
    decreases ts@.len() - pos, 0int,
{
    let ghost tv = tokens_view(*ts);
    proof {
        vstd::std_specs::vec::axiom_spec_len(ts);
        if pos + 1 < ts@.len() {
            assert(tv[pos + 1int] == ts@[pos + 1int]@);
        }
    }
    if pos + 1 < ts.len() && matches!(&ts[pos + 1], Token::LParen) {
        let (arg0, p0) = match parse_expr(ts, pos + 2) {
            Ok(x) => x,
            Err(e) => { return Err(e); },
        };
        let (mut args, p1) = match parse_args(ts, p0, arg0) {
            Ok(x) => x,
            Err(e) => { return Err(e); },
        };
        proof {
            if p1 < ts@.len() {
                assert(tv[p1 as int] == ts@[p1 as int]@);
            }
            lemma_exprs_model_len(args@);
        }
        if p1 < ts.len() && matches!(&ts[p1], Token::RParen) {
            if args.len() == 1 {
                let a0 = match args.pop() {
                    Some(x) => x,
                    None => { return Err(ParseError::UnexpectedToken); },
                };
                Ok((Expr::FunctionCall { name: name.clone(), arg: Box::new(a0) }, p1 + 1))
            } else {
                let ghost am = exprs_model(args@);
                let seq_arg = Expr::Sequence(args);
                proof {
                    assert(expr_model(seq_arg) == ExprModel::Sequence(am));
                }
                Ok(
                    (
                        Expr::FunctionCall { name: name.clone(), arg: Box::new(seq_arg) },
                        p1 + 1,
                    ),
                )
            }
        } else {
            Err(ParseError::ExpectedClosingParenCall)
        }
    } else {
        Ok((Expr::Ident(name.clone()), pos + 1))
    }
}

/// Parses a factor that begins with a built-in function's name.
#[verifier::rlimit(100)]
#[verifier::spinoff_prover]
fn parse_fun_factor(ts: &Vec<Token>, pos: usize, func: SpecialFunction) -> (r: Result<
    (Expr, usize),
    ParseError,
>)
    requires
        pos < ts@.len(),
    ensures
        match r {
            Ok((e, p)) => p_factor_fun(tokens_view(*ts), pos as int, func) == Ok::<
                (ExprModel, int),
                ParseError,
            >((expr_model(e), p as int)) && pos < p <= ts@.len(),
            Err(er) => p_factor_fun(tokens_view(*ts), pos as int, func) == Err::<
                (ExprModel, int),
                ParseError,
            >(er),
        },
    decreases ts@.len() - pos, 0int,
{
    let ghost tv = tokens_view(*ts);
    proof {
        vstd::std_specs::vec::axiom_spec_len(ts);
        if pos + 1 < ts@.len() {
            assert(tv[pos + 1int] == ts@[pos + 1int]@);
        }
        if pos + 2 < ts@.len() {
            assert(tv[pos + 2int] == ts@[pos + 2int]@);
        }
    }
    if pos + 1 < ts.len() && matches!(&ts[pos + 1], Token::LParen) {
        if pos + 2 < ts.len() && matches!(&ts[pos + 2], Token::RParen) {
            let empty_args: Vec<Expr> = Vec::new();
            proof {
                lemma_exprs_model_len(empty_args@);
                assert(exprs_model(empty_args@) =~= Seq::<ExprModel>::empty());
            }
            let seq_arg = Expr::Sequence(empty_args);
            proof {
                assert(expr_model(seq_arg) == ExprModel::Sequence(Seq::<ExprModel>::empty()));
            }
            Ok((Expr::Function { func, arg: Box::new(seq_arg) }, pos + 3))
        } else {
            let (arg0, p0) = match parse_expr(ts, pos + 2) {
                Ok(x) => x,
                Err(e) => { return Err(e); },
            };
            let (args, p1) = match parse_args(ts, p0, arg0) {
                Ok(x) => x,
                Err(e) => { return Err(e); },
            };
            proof {
                if p1 < ts@.len() {
                    assert(tv[p1 as int] == ts@[p1 as int]@);
                }
            }
            if p1 < ts.len() && matches!(&ts[p1], Token::RParen) {
                let ghost am = exprs_model(args@);
                let seq_arg = Expr::Sequence(args);
                proof {
                    assert(expr_model(seq_arg) == ExprModel::Sequence(am));
                }
                Ok((Expr::Function { func, arg: Box::new(seq_arg) }, p1 + 1))
            } else {
                Err(ParseError::ExpectedClosingParenArgs)
            }
        }
    } else {
        Err(ParseError::ExpectedOpeningParen)
    }
}


/// Re-derives just the user-function table from source text.  A compiled
/// program carries only calls by name, so a caller that keeps compiled
/// output apart from its source needs the table from the source before
/// running the program.
pub fn parse_functions(input: &str) -> (r: Result<FunctionTable, ParseError>)
    ensures
        match r {
            Ok(ft) => p_parse(crate::lexer::lex_all(input@, 0)) matches Ok(pr) && pr.1 == ft@,
            Err(er) => p_parse(crate::lexer::lex_all(input@, 0)) == Err::<
                (ExprModel, Map<Seq<char>, FnDefModel>),
                ParseError,
            >(er),
        },
{
    let lines = crate::lexer::tokenize(input);
    match parse(lines) {
        Ok((_, ft)) => Ok(ft),
        Err(e) => Err(e),
    }
}

} // verus!
