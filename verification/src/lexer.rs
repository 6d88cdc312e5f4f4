//! Tokens and the lexer.

use vstd::prelude::*;

verus! {

/// Binary operators of the expression grammar.
#[derive(Debug, Clone, Copy, PartialEq, Eq, Structural)]
pub enum BinaryOperator {
    Plus,
    Minus,
    Star,
    Slash,
    Pow,
}

/// Built-in named functions.
#[derive(Debug, Clone, Copy, PartialEq, Eq, Structural)]
pub enum SpecialFunction {
    Sin,
    Cos,
    Tan,
    Cot,
    Sec,
    Csc,
    Sinh,
    Cosh,
    Tanh,
    Asinh,
    Acosh,
    Atanh,
    Exp,
    Log,
    Log10,
    Log2,
    Sqrt,
    Abs,
    Asin,
    Acos,
    Atan,
    Acot,
    Asec,
    Acsc,
    Pow,
    Fact,
    LogBase,
    Floor,
    Rand,
    RandInt,
}

/// Tokens produced by the lexer.  A numeric literal keeps its source text;
/// the text is turned into a floating-point value only by the host of the
/// virtual machine, when the compiled program is run.
#[derive(Debug, Clone, PartialEq, Eq)]
pub enum Token {
    Number(String),
    Operator(BinaryOperator),
    Function(SpecialFunction),
    Ident(String),
    Assign,
    LParen,
    RParen,
    Comma,
    Def,
    EndDef,
    Arrow,
    Var,
    Pipe,
    Sum,
    Product,
}

/// Mathematical model of a token: identifier and literal text as `Seq<char>`.
pub ghost enum TokenModel {
    Number(Seq<char>),
    Operator(BinaryOperator),
    Function(SpecialFunction),
    Ident(Seq<char>),
    Assign,
    LParen,
    RParen,
    Comma,
    Def,
    EndDef,
    Arrow,
    Var,
    Pipe,
    Sum,
    Product,
}

impl View for Token {
    type V = TokenModel;

    open spec fn view(&self) -> TokenModel {
        match self {
            Token::Number(s) => TokenModel::Number(s@),
            Token::Operator(op) => TokenModel::Operator(*op),
            Token::Function(f) => TokenModel::Function(*f),
            Token::Ident(s) => TokenModel::Ident(s@),
            Token::Assign => TokenModel::Assign,
            Token::LParen => TokenModel::LParen,
            Token::RParen => TokenModel::RParen,
            Token::Comma => TokenModel::Comma,
            Token::Def => TokenModel::Def,
            Token::EndDef => TokenModel::EndDef,
            Token::Arrow => TokenModel::Arrow,
            Token::Var => TokenModel::Var,
            Token::Pipe => TokenModel::Pipe,
            Token::Sum => TokenModel::Sum,
            Token::Product => TokenModel::Product,
        }
    }
}

impl DeepView for Token {
    type V = TokenModel;

    open spec fn deep_view(&self) -> TokenModel {
        self.view()
    }
}


/// ASCII whitespace, as the lexer skips it.
pub open spec fn is_ws(c: char) -> bool {
    c == ' ' || c == '\t' || c == '\n' || c == '\r' || c == '\u{b}' || c == '\u{c}'
}

/// An ASCII digit.
pub open spec fn is_digit(c: char) -> bool {
    '0' <= c && c <= '9'
}

/// An ASCII letter.
pub open spec fn is_alpha(c: char) -> bool {
    ('a' <= c && c <= 'z') || ('A' <= c && c <= 'Z')
}

/// A character that may continue an identifier.
pub open spec fn is_ident_char(c: char) -> bool {
    is_alpha(c) || is_digit(c) || c == '_'
}

/// An ASCII upper-case letter mapped to lower case; all else unchanged.
pub open spec fn lower_c(c: char) -> char {
    if 'A' <= c && c <= 'Z' {
        ((c as u32) + 32) as char
    } else {
        c
    }
}

/// A word mapped to lower case.
pub open spec fn lower_seq(w: Seq<char>) -> Seq<char> {
    Seq::new(w.len(), |i: int| lower_c(w[i]))
}

/// The index of the first newline at or after `i`, or `end`.
pub open spec fn line_end(s: Seq<char>, i: int, end: int) -> int
    decreases end - i,
{
    if i < 0 || i >= end {
        end
    } else if s[i] == '\n' {
        i
    } else {
        line_end(s, i + 1, end)
    }
}

/// The index of the first character at or after `i` that no longer belongs
/// to a numeric literal, or `end`.
pub open spec fn num_end(s: Seq<char>, i: int, end: int) -> int
    decreases end - i,
{
    if i < 0 || i >= end {
        end
    } else if is_digit(s[i]) || s[i] == '.' {
        num_end(s, i + 1, end)
    } else {
        i
    }
}

/// The index of the first character at or after `i` that no longer belongs
/// to an identifier, or `end`.
pub open spec fn ident_end(s: Seq<char>, i: int, end: int) -> int
    decreases end - i,
{
    if i < 0 || i >= end {
        end
    } else if is_ident_char(s[i]) {
        ident_end(s, i + 1, end)
    } else {
        i
    }
}

/// The index of the first non-whitespace character at or after `i`, or `end`.
pub open spec fn first_non_ws(s: Seq<char>, i: int, end: int) -> int
    decreases end - i,
{
    if i < 0 || i >= end {
        end
    } else if is_ws(s[i]) {
        first_non_ws(s, i + 1, end)
    } else {
        i
    }
}

/// How many dots a literal holds.
pub open spec fn dots_in(s: Seq<char>, i: int, end: int) -> int
    decreases end - i,
{
    if i < 0 || i >= end {
        0
    } else {
        (if s[i] == '.' {
            1int
        } else {
            0int
        }) + dots_in(s, i + 1, end)
    }
}

/// Whether a literal holds a digit.
pub open spec fn has_digit(s: Seq<char>, i: int, end: int) -> bool {
    exists|k: int| i <= k < end && is_digit(#[trigger] s[k])
}

/// A run of digits and dots is a valid numeric literal exactly when it has
/// at most one dot and at least one digit.  An invalid run (`1.2.3`, a lone
/// dot) is silently dropped, as is everything the lexer does not recognise.
pub open spec fn valid_number(s: Seq<char>, i: int, end: int) -> bool {
    dots_in(s, i, end) <= 1 && has_digit(s, i, end)
}

/// The keyword or function-name table.  The match is on the lower-cased
/// word; an unmatched word is an identifier and keeps its spelling.  The
/// inverse trigonometric sine is absent deliberately: `asin` reads as an
/// ordinary identifier.
pub open spec fn keyword_of(w: Seq<char>) -> TokenModel {
    let lw = lower_seq(w);
    if lw == "sum"@ {
        TokenModel::Sum
    } else if lw == "product"@ {
        TokenModel::Product
    } else if lw == "def"@ {
        TokenModel::Def
    } else if lw == "end"@ {
        TokenModel::EndDef
    } else if lw == "var"@ {
        TokenModel::Var
    } else if lw == "sin"@ {
        TokenModel::Function(SpecialFunction::Sin)
    } else if lw == "cos"@ {
        TokenModel::Function(SpecialFunction::Cos)
    } else if lw == "tan"@ {
        TokenModel::Function(SpecialFunction::Tan)
    } else if lw == "cot"@ {
        TokenModel::Function(SpecialFunction::Cot)
    } else if lw == "sec"@ {
        TokenModel::Function(SpecialFunction::Sec)
    } else if lw == "csc"@ {
        TokenModel::Function(SpecialFunction::Csc)
    } else if lw == "sinh"@ {
        TokenModel::Function(SpecialFunction::Sinh)
    } else if lw == "cosh"@ {
        TokenModel::Function(SpecialFunction::Cosh)
    } else if lw == "tanh"@ {
        TokenModel::Function(SpecialFunction::Tanh)
    } else if lw == "asinh"@ {
        TokenModel::Function(SpecialFunction::Asinh)
    } else if lw == "acosh"@ {
        TokenModel::Function(SpecialFunction::Acosh)
    } else if lw == "atanh"@ {
        TokenModel::Function(SpecialFunction::Atanh)
    } else if lw == "exp"@ {
        TokenModel::Function(SpecialFunction::Exp)
    } else if lw == "log"@ {
        TokenModel::Function(SpecialFunction::Log)
    } else if lw == "log10"@ {
        TokenModel::Function(SpecialFunction::Log10)
    } else if lw == "log2"@ {
        TokenModel::Function(SpecialFunction::Log2)
    } else if lw == "sqrt"@ {
        TokenModel::Function(SpecialFunction::Sqrt)
    } else if lw == "abs"@ {
        TokenModel::Function(SpecialFunction::Abs)
    } else if lw == "acos"@ {
        TokenModel::Function(SpecialFunction::Acos)
    } else if lw == "atan"@ {
        TokenModel::Function(SpecialFunction::Atan)
    } else if lw == "acot"@ {
        TokenModel::Function(SpecialFunction::Acot)
    } else if lw == "asec"@ {
        TokenModel::Function(SpecialFunction::Asec)
    } else if lw == "acsc"@ {
        TokenModel::Function(SpecialFunction::Acsc)
    } else if lw == "pow"@ {
        TokenModel::Function(SpecialFunction::Pow)
    } else if lw == "floor"@ {
        TokenModel::Function(SpecialFunction::Floor)
    } else if lw == "rand"@ {
        TokenModel::Function(SpecialFunction::Rand)
    } else if lw == "randint"@ {
        TokenModel::Function(SpecialFunction::RandInt)
    } else {
        TokenModel::Ident(w)
    }
}

/// The tokens of the line `s[i..end)`.
pub open spec fn tok_scan(s: Seq<char>, i: int, end: int) -> Seq<TokenModel>
    decreases end - i,
{
    if i < 0 || i >= end {
        Seq::empty()
    } else {
        let c = s[i];
        if is_digit(c) || c == '.' {
            let j = num_end(s, i + 1, end);
            let rest = if i < j <= end {
                tok_scan(s, j, end)
            } else {
                Seq::empty()
            };
            if valid_number(s, i, j) {
                seq![TokenModel::Number(s.subrange(i, j))] + rest
            } else {
                rest
            }
        } else if c == '+' {
            seq![TokenModel::Operator(BinaryOperator::Plus)] + tok_scan(s, i + 1, end)
        } else if c == '-' {
            seq![TokenModel::Operator(BinaryOperator::Minus)] + tok_scan(s, i + 1, end)
        } else if c == '*' {
            seq![TokenModel::Operator(BinaryOperator::Star)] + tok_scan(s, i + 1, end)
        } else if c == '/' {
            seq![TokenModel::Operator(BinaryOperator::Slash)] + tok_scan(s, i + 1, end)
        } else if c == '^' {
            seq![TokenModel::Operator(BinaryOperator::Pow)] + tok_scan(s, i + 1, end)
        } else if c == '!' {
            seq![TokenModel::Function(SpecialFunction::Fact)] + tok_scan(s, i + 1, end)
        } else if c == '(' {
            seq![TokenModel::LParen] + tok_scan(s, i + 1, end)
        } else if c == ')' {
            seq![TokenModel::RParen] + tok_scan(s, i + 1, end)
        } else if c == '|' {
            seq![TokenModel::Pipe] + tok_scan(s, i + 1, end)
        } else if c == ',' {
            seq![TokenModel::Comma] + tok_scan(s, i + 1, end)
        } else if c == '=' {
            if i + 1 < end && s[i + 1] == '>' {
                seq![TokenModel::Arrow] + tok_scan(s, i + 2, end)
            } else {
                seq![TokenModel::Assign] + tok_scan(s, i + 1, end)
            }
        } else if is_alpha(c) {
            let j = ident_end(s, i + 1, end);
            let rest = if i < j <= end {
                tok_scan(s, j, end)
            } else {
                Seq::empty()
            };
            seq![keyword_of(s.subrange(i, j))] + rest
        } else {
            // Whitespace, and anything unrecognised, is skipped.
            tok_scan(s, i + 1, end)
        }
    }
}

/// The token lines of a whole source text: one line per newline-separated
/// source line (a trailing carriage return is dropped), blank and comment
/// lines dropped, lines whose scan yields nothing dropped.
pub open spec fn lex_all(s: Seq<char>, i: int) -> Seq<Seq<TokenModel>>
    decreases s.len() - i,
{
    if i < 0 || i >= s.len() {
        Seq::empty()
    } else {
        let j = line_end(s, i, s.len() as int);
        let jj = if j > i && s[j - 1] == '\r' {
            j - 1
        } else {
            j
        };
        let rest = if i <= j < s.len() {
            lex_all(s, j + 1)
        } else {
            Seq::empty()
        };
        let fnw = first_non_ws(s, i, jj);
        if fnw < jj && s[fnw] != '#' {
            let ts = tok_scan(s, i, jj);
            if ts.len() > 0 {
                seq![ts] + rest
            } else {
                rest
            }
        } else {
            rest
        }
    }
}

/// The models of a line of tokens.
pub open spec fn tokens_view(v: Vec<Token>) -> Seq<TokenModel> {
    Seq::new(v@.len(), |i: int| v@[i]@)
}


/// The executable twin of `lower_c`.
fn lower_char(c: char) -> (r: char)
    ensures
        r == lower_c(c),
{
    match c {
        'A' => 'a',
        'B' => 'b',
        'C' => 'c',
        'D' => 'd',
        'E' => 'e',
        'F' => 'f',
        'G' => 'g',
        'H' => 'h',
        'I' => 'i',
        'J' => 'j',
        'K' => 'k',
        'L' => 'l',
        'M' => 'm',
        'N' => 'n',
        'O' => 'o',
        'P' => 'p',
        'Q' => 'q',
        'R' => 'r',
        'S' => 's',
        'T' => 't',
        'U' => 'u',
        'V' => 'v',
        'W' => 'w',
        'X' => 'x',
        'Y' => 'y',
        'Z' => 'z',
        _ => c,
    }
}

/// Whether the word `chars[k..j)`, lower-cased, is the keyword `kw`.
#[verifier::loop_isolation(false)]
fn kw_eq(chars: &Vec<char>, k: usize, j: usize, kw: &str) -> (r: bool)
    requires
        k <= j <= chars@.len(),
    ensures
        r == (lower_seq(chars@.subrange(k as int, j as int)) == kw@),
{
    let ghost w = lower_seq(chars@.subrange(k as int, j as int));
    let m = kw.unicode_len();
    if j - k != m {
        proof {
            assert(w.len() != kw@.len());
        }
        return false;
    }
    let mut t: usize = 0;
    while t < m
        invariant
            0 <= t <= m,
            m == kw@.len(),
            k + m == j,
            j <= chars@.len(),
            w == lower_seq(chars@.subrange(k as int, j as int)),
            w.len() == m,
            forall|u: int| 0 <= u < t ==> w[u] == kw@[u],
        decreases m - t,
    {
        let c = lower_char(chars[k + t]);
        let d = kw.get_char(t);
        proof {
            assert(w[t as int] == lower_c(chars@.subrange(k as int, j as int)[t as int]));
        }
        if c != d {
            proof {
                assert(w[t as int] != kw@[t as int]);
            }
            return false;
        }
        t = t + 1;
    }
    proof {
        assert(w =~= kw@);
    }
    true
}

/// Picks the token of a word: a keyword, a function name, or an identifier.
fn keyword_token(input: &str, chars: &Vec<char>, k: usize, j: usize) -> (r: Token)
    requires
        chars@ == input@,
        k <= j <= chars@.len(),
    ensures
        r@ == keyword_of(chars@.subrange(k as int, j as int)),
{
    if kw_eq(chars, k, j, "sum") {
        Token::Sum
    } else if kw_eq(chars, k, j, "product") {
        Token::Product
    } else if kw_eq(chars, k, j, "def") {
        Token::Def
    } else if kw_eq(chars, k, j, "end") {
        Token::EndDef
    } else if kw_eq(chars, k, j, "var") {
        Token::Var
    } else if kw_eq(chars, k, j, "sin") {
        Token::Function(SpecialFunction::Sin)
    } else if kw_eq(chars, k, j, "cos") {
        Token::Function(SpecialFunction::Cos)
    } else if kw_eq(chars, k, j, "tan") {
        Token::Function(SpecialFunction::Tan)
    } else if kw_eq(chars, k, j, "cot") {
        Token::Function(SpecialFunction::Cot)
    } else if kw_eq(chars, k, j, "sec") {
        Token::Function(SpecialFunction::Sec)
    } else if kw_eq(chars, k, j, "csc") {
        Token::Function(SpecialFunction::Csc)
    } else if kw_eq(chars, k, j, "sinh") {
        Token::Function(SpecialFunction::Sinh)
    } else if kw_eq(chars, k, j, "cosh") {
        Token::Function(SpecialFunction::Cosh)
    } else if kw_eq(chars, k, j, "tanh") {
        Token::Function(SpecialFunction::Tanh)
    } else if kw_eq(chars, k, j, "asinh") {
        Token::Function(SpecialFunction::Asinh)
    } else if kw_eq(chars, k, j, "acosh") {
        Token::Function(SpecialFunction::Acosh)
    } else if kw_eq(chars, k, j, "atanh") {
        Token::Function(SpecialFunction::Atanh)
    } else if kw_eq(chars, k, j, "exp") {
        Token::Function(SpecialFunction::Exp)
    } else if kw_eq(chars, k, j, "log") {
        Token::Function(SpecialFunction::Log)
    } else if kw_eq(chars, k, j, "log10") {
        Token::Function(SpecialFunction::Log10)
    } else if kw_eq(chars, k, j, "log2") {
        Token::Function(SpecialFunction::Log2)
    } else if kw_eq(chars, k, j, "sqrt") {
        Token::Function(SpecialFunction::Sqrt)
    } else if kw_eq(chars, k, j, "abs") {
        Token::Function(SpecialFunction::Abs)
    } else if kw_eq(chars, k, j, "acos") {
        Token::Function(SpecialFunction::Acos)
    } else if kw_eq(chars, k, j, "atan") {
        Token::Function(SpecialFunction::Atan)
    } else if kw_eq(chars, k, j, "acot") {
        Token::Function(SpecialFunction::Acot)
    } else if kw_eq(chars, k, j, "asec") {
        Token::Function(SpecialFunction::Asec)
    } else if kw_eq(chars, k, j, "acsc") {
        Token::Function(SpecialFunction::Acsc)
    } else if kw_eq(chars, k, j, "pow") {
        Token::Function(SpecialFunction::Pow)
    } else if kw_eq(chars, k, j, "floor") {
        Token::Function(SpecialFunction::Floor)
    } else if kw_eq(chars, k, j, "rand") {
        Token::Function(SpecialFunction::Rand)
    } else if kw_eq(chars, k, j, "randint") {
        Token::Function(SpecialFunction::RandInt)
    } else {
        Token::Ident(input.substring_char(k, j).to_owned())
    }
}

/// Scans the tokens of the line `chars[k..end)`.
#[verifier::loop_isolation(false)]
fn scan_line(input: &str, chars: &Vec<char>, k: usize, end: usize) -> (r: Vec<Token>)
    requires
        chars@ == input@,
        k <= end <= chars@.len(),
    ensures
        tokens_view(r) == tok_scan(chars@, k as int, end as int),
    decreases end - k,
{
    let ghost s = chars@;
    let mut out: Vec<Token> = Vec::new();
    let mut i: usize = k;
    while i < end
        invariant
            k <= i <= end <= s.len(),
            s == chars@,
            chars@ == input@,
            tok_scan(s, k as int, end as int) == tokens_view(out) + tok_scan(
                s,
                i as int,
                end as int,
            ),
        decreases end - i,
    {
        let ghost i0 = i as int;
        let ghost ov = tokens_view(out);
        let c = chars[i];
        if ('0' <= c && c <= '9') || c == '.' {
            let mut j: usize = i + 1;
            while j < end && (('0' <= chars[j] && chars[j] <= '9') || chars[j] == '.')
                invariant
                    i + 1 <= j <= end <= s.len(),
                    s == chars@,
                    num_end(s, i0 + 1, end as int) == num_end(s, j as int, end as int),
                decreases end - j,
            {
                j = j + 1;
            }
            proof {
                assert(num_end(s, j as int, end as int) == j as int);
            }
            let mut dots: usize = 0;
            let mut sawdig = false;
            let mut t: usize = i;
            while t < j
                invariant
                    i <= t <= j <= s.len(),
                    s == chars@,
                    dots <= t,
                    dots == dots_in(s, i0, t as int),
                    sawdig == exists|u: int| i0 <= u < t && is_digit(#[trigger] s[u]),
                decreases j - t,
            {
                proof {
                    lemma_dots_snoc(s, i0, t as int);
                }
                if chars[t] == '.' {
                    dots = dots + 1;
                }
                if '0' <= chars[t] && chars[t] <= '9' {
                    sawdig = true;
                }
                t = t + 1;
            }
            proof {
                lemma_dots_nonneg(s, i0, j as int);
            }
            if dots <= 1 && sawdig {
                let lit = input.substring_char(i, j).to_owned();
                out.push(Token::Number(lit));
                proof {
                    assert(tokens_view(out) =~= ov + seq![
                        TokenModel::Number(s.subrange(i0, j as int)),
                    ]);
                    assert(tok_scan(s, i0, end as int) == seq![
                        TokenModel::Number(s.subrange(i0, j as int)),
                    ] + tok_scan(s, j as int, end as int));
                    assert(tok_scan(s, k as int, end as int) =~= tokens_view(out) + tok_scan(
                        s,
                        j as int,
                        end as int,
                    ));
                }
            } else {
                proof {
                    assert(tok_scan(s, i0, end as int) == tok_scan(s, j as int, end as int));
                }
            }
            i = j;
        } else if c == '=' {
            if i + 1 < end && chars[i + 1] == '>' {
                out.push(Token::Arrow);
                proof {
                    assert(tokens_view(out) =~= ov + seq![TokenModel::Arrow]);
                    assert(tok_scan(s, k as int, end as int) =~= tokens_view(out) + tok_scan(
                        s,
                        i0 + 2,
                        end as int,
                    ));
                }
                i = i + 2;
            } else {
                out.push(Token::Assign);
                proof {
                    assert(tokens_view(out) =~= ov + seq![TokenModel::Assign]);
                    assert(tok_scan(s, k as int, end as int) =~= tokens_view(out) + tok_scan(
                        s,
                        i0 + 1,
                        end as int,
                    ));
                }
                i = i + 1;
            }
        } else if ('a' <= c && c <= 'z') || ('A' <= c && c <= 'Z') {
            let mut j: usize = i + 1;
            while j < end && (('a' <= chars[j] && chars[j] <= 'z') || ('A' <= chars[j] && chars[j]
                <= 'Z') || ('0' <= chars[j] && chars[j] <= '9') || chars[j] == '_')
                invariant
                    i + 1 <= j <= end <= s.len(),
                    s == chars@,
                    ident_end(s, i0 + 1, end as int) == ident_end(s, j as int, end as int),
                decreases end - j,
            {
                j = j + 1;
            }
            proof {
                assert(ident_end(s, j as int, end as int) == j as int);
            }
            let tk = keyword_token(input, chars, i, j);
            out.push(tk);
            proof {
                assert(tokens_view(out) =~= ov + seq![keyword_of(s.subrange(i0, j as int))]);
                assert(tok_scan(s, i0, end as int) == seq![
                    keyword_of(s.subrange(i0, j as int)),
                ] + tok_scan(s, j as int, end as int));
                assert(tok_scan(s, k as int, end as int) =~= tokens_view(out) + tok_scan(
                    s,
                    j as int,
                    end as int,
                ));
            }
            i = j;
        } else {
            let tk: Option<Token> = if c == '+' {
                Some(Token::Operator(BinaryOperator::Plus))
            } else if c == '-' {
                Some(Token::Operator(BinaryOperator::Minus))
            } else if c == '*' {
                Some(Token::Operator(BinaryOperator::Star))
            } else if c == '/' {
                Some(Token::Operator(BinaryOperator::Slash))
            } else if c == '^' {
                Some(Token::Operator(BinaryOperator::Pow))
            } else if c == '!' {
                Some(Token::Function(SpecialFunction::Fact))
            } else if c == '(' {
                Some(Token::LParen)
            } else if c == ')' {
                Some(Token::RParen)
            } else if c == '|' {
                Some(Token::Pipe)
            } else if c == ',' {
                Some(Token::Comma)
            } else {
                None
            };
            match tk {
                Some(tok) => {
                    let ghost tm = tok@;
                    out.push(tok);
                    proof {
                        assert(tokens_view(out) =~= ov + seq![tm]);
                        assert(tok_scan(s, i0, end as int) == seq![tm] + tok_scan(
                            s,
                            i0 + 1,
                            end as int,
                        ));
                        assert(tok_scan(s, k as int, end as int) =~= tokens_view(out) + tok_scan(
                            s,
                            i0 + 1,
                            end as int,
                        ));
                    }
                },
                None => {},
            }
            i = i + 1;
        }
    }
    out
}

/// One more dot-count step, and the count over a split range.
proof fn lemma_dots_snoc(s: Seq<char>, i: int, t: int)
    requires
        0 <= i <= t < s.len(),
    ensures
        dots_in(s, i, t + 1) == dots_in(s, i, t) + (if s[t] == '.' {
            1int
        } else {
            0int
        }),
    decreases t - i,
{
    if i < t {
        lemma_dots_snoc(s, i + 1, t);
    } else {
        assert(dots_in(s, t, t) == 0);
        assert(dots_in(s, t + 1, t + 1) == 0);
        assert(dots_in(s, t, t + 1) == (if s[t] == '.' {
            1int
        } else {
            0int
        }) + dots_in(s, t + 1, t + 1));
    }
}

/// A dot count is never negative.
proof fn lemma_dots_nonneg(s: Seq<char>, i: int, j: int)
    requires
        0 <= i <= j <= s.len(),
    ensures
        dots_in(s, i, j) >= 0,
    decreases j - i,
{
    if i < j {
        lemma_dots_nonneg(s, i + 1, j);
    }
}

/// The models of the token lines.
pub open spec fn lines_view(v: Vec<Vec<Token>>) -> Seq<Seq<TokenModel>> {
    Seq::new(v@.len(), |i: int| tokens_view(v@[i]))
}

/// Tokenizes source text into one token line per non-blank, non-comment
/// source line.  No lexical errors arise: malformed numeric literals and
/// unrecognised characters are silently dropped.
#[verifier::loop_isolation(false)]
pub fn tokenize(input: &str) -> (r: Vec<Vec<Token>>)
    ensures
        lines_view(r) == lex_all(input@, 0),
{
    let n = input.unicode_len();
    let mut chars: Vec<char> = Vec::new();
    let mut ci: usize = 0;
    while ci < n
        invariant
            0 <= ci <= n,
            n == input@.len(),
            chars@ =~= input@.take(ci as int),
        decreases n - ci,
    {
        chars.push(input.get_char(ci));
        proof {
            assert(chars@ =~= input@.take(ci + 1int));
        }
        ci = ci + 1;
    }
    proof {
        assert(chars@ =~= input@);
    }
    let ghost s = input@;
    let mut out: Vec<Vec<Token>> = Vec::new();
    let mut i: usize = 0;
    while i < n
        invariant
            0 <= i <= n,
            n == s.len(),
            s == input@,
            chars@ == s,
            lex_all(s, 0) == lines_view(out) + lex_all(s, i as int),
        decreases n - i,
    {
        let ghost iline = i as int;
        let ghost ov = lines_view(out);
        let mut j: usize = i;
        while j < n && chars[j] != '\n'
            invariant
                i <= j <= n,
                n == s.len(),
                chars@ == s,
                line_end(s, iline, n as int) == line_end(s, j as int, n as int),
            decreases n - j,
        {
            j = j + 1;
        }
        proof {
            assert(line_end(s, j as int, n as int) == j as int);
        }
        let jj = if j > i && chars[j - 1] == '\r' {
            j - 1
        } else {
            j
        };
        let mut f: usize = i;
        while f < jj && (chars[f] == ' ' || chars[f] == '\t' || chars[f] == '\n' || chars[f]
            == '\r' || chars[f] == '\u{b}' || chars[f] == '\u{c}')
            invariant
                i <= f <= jj <= n,
                n == s.len(),
                chars@ == s,
                first_non_ws(s, iline, jj as int) == first_non_ws(s, f as int, jj as int),
            decreases jj - f,
        {
            f = f + 1;
        }
        proof {
            assert(first_non_ws(s, f as int, jj as int) == f as int);
        }
        if f < jj && chars[f] != '#' {
            let ts = scan_line(input, &chars, i, jj);
            if ts.len() > 0 {
                out.push(ts);
                proof {
                    assert(lines_view(out) =~= ov + seq![tok_scan(s, iline, jj as int)]);
                }
            }
        }
        proof {
            assert(lex_all(s, iline) == (if first_non_ws(s, iline, jj as int) < jj && s[
                first_non_ws(s, iline, jj as int)] != '#' && tok_scan(s, iline, jj as int).len()
                > 0 {
                seq![tok_scan(s, iline, jj as int)] + lex_all(s, j + 1int)
            } else {
                lex_all(s, j + 1int)
            }));
        }
        proof {
            if out@.len() > ov.len() {
                assert(lex_all(s, 0) =~= lines_view(out) + lex_all(s, j + 1int));
            }
        }
        if j < n {
            i = j + 1;
        } else {
            i = n;
        }
    }
    out
}

} // verus!
