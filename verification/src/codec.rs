//! A versioned binary encoding of compiled programs.
//!
//! The format is self-describing: a four-byte magic, a version byte, then the
//! program as a tagged union.  Lengths and counts are 32-bit little-endian;
//! strings are length-prefixed ASCII.  `enc_*` below define the format
//! mathematically; the executable encoder and decoder are proved against
//! them, and `lemma_round_trip_prog` shows that decoding an encoding gives
//! the program back.

use vstd::prelude::*;
use crate::bytecode::{Bytecode, BytecodeModel, Program, bc_model, prog_model, lemma_prog_model_len};

verus! {

/// Magic bytes: the ASCII codes of `M`, `T`, `H`, `C`, then the format version.
pub open spec fn header() -> Seq<u8> {
    seq![77u8, 84u8, 72u8, 67u8, 1u8]
}

/// Little-endian 32-bit encoding of `n`.
pub open spec fn le32(n: nat) -> Seq<u8> {
    seq![
        (n % 256) as u8,
        ((n / 256) % 256) as u8,
        ((n / 65536) % 256) as u8,
        ((n / 16777216) % 256) as u8,
    ]
}

/// A string can be encoded when it is ASCII and its length fits 32 bits.
pub open spec fn str_ok(s: Seq<char>) -> bool {
    s.len() < 4294967296 && forall|i: int| 0 <= i < s.len() ==> (#[trigger] s[i] as u32) < 128
}

/// Length-prefixed ASCII bytes of `s`.
pub open spec fn enc_str(s: Seq<char>) -> Seq<u8> {
    le32(s.len() as nat) + Seq::new(s.len(), |i: int| (s[i] as u32) as u8)
}

/// Reads a 32-bit little-endian value.
pub open spec fn dec_u32(b: Seq<u8>, pos: int) -> Option<(nat, int)> {
    if pos + 4 <= b.len() {
        Some(
            (
                (b[pos] + b[pos + 1] * 256 + b[pos + 2] * 65536 + b[pos + 3] * 16777216) as nat,
                pos + 4,
            ),
        )
    } else {
        None
    }
}

/// Reads `n` ASCII characters.
pub open spec fn dec_chars(b: Seq<u8>, pos: int, n: nat) -> Option<(Seq<char>, int)>
    decreases n,
{
    if n == 0 {
        Some((Seq::empty(), pos))
    } else if pos < b.len() && b[pos] < 128 {
        match dec_chars(b, pos + 1, (n - 1) as nat) {
            Some((s, pos2)) => Some((seq![(b[pos] as u32) as char] + s, pos2)),
            None => None,
        }
    } else {
        None
    }
}

/// Reads a length-prefixed ASCII string.
pub open spec fn dec_str(b: Seq<u8>, pos: int) -> Option<(Seq<char>, int)> {
    match dec_u32(b, pos) {
        Some((n, pos1)) => dec_chars(b, pos1, n),
        None => None,
    }
}

/// Decoding the encoding of a 32-bit value gives the value back.
pub proof fn lemma_dec_u32(n: nat, b: Seq<u8>, pos: int)
    requires
        n < 4294967296,
        0 <= pos,
        pos + 4 <= b.len(),
        b.subrange(pos, pos + 4) =~= le32(n),
    ensures
        dec_u32(b, pos) == Some((n, pos + 4)),
{
    assert(b[pos] == n % 256);
    assert(b[pos + 1] == (n / 256) % 256);
    assert(b[pos + 2] == (n / 65536) % 256);
    assert(b[pos + 3] == (n / 16777216) % 256);
    assert(n % 256 + ((n / 256) % 256) * 256 + ((n / 65536) % 256) * 65536 + ((n / 16777216) % 256)
        * 16777216 == n) by (nonlinear_arith)
        requires
            n < 4294967296,
    ;
}

/// Decoding the encoding of an ASCII string gives the string back.
pub proof fn lemma_dec_str(s: Seq<char>, b: Seq<u8>, pos: int)
    requires
        str_ok(s),
        0 <= pos,
        pos + enc_str(s).len() <= b.len(),
        b.subrange(pos, pos + enc_str(s).len() as int) =~= enc_str(s),
    ensures
        dec_str(b, pos) == Some((s, pos + enc_str(s).len())),
{
    assert(enc_str(s).len() == 4 + s.len());
    assert(b.subrange(pos, pos + 4) =~= le32(s.len() as nat)) by {
        assert forall|i: int| 0 <= i < 4 implies b.subrange(pos, pos + 4)[i] == le32(
            s.len() as nat,
        )[i] by {
            assert(b[pos + i] == enc_str(s)[i]);
        }
    }
    lemma_dec_u32(s.len() as nat, b, pos);
    assert forall|i: int| 0 <= i < s.len() implies b[pos + 4 + (i - 0)] == ((#[trigger] s[i] as u32)
        as u8) by {
        assert(b[pos + 4 + i] == b.subrange(pos, pos + enc_str(s).len() as int)[4 + i]);
    }
    lemma_dec_chars(s, 0, b, pos + 4);
}

/// Helper for `lemma_dec_str`: decoding the character bytes of `s` from
/// index `k` on gives the suffix of `s` back.
proof fn lemma_dec_chars(s: Seq<char>, k: int, b: Seq<u8>, pos: int)
    requires
        str_ok(s),
        0 <= k <= s.len(),
        0 <= pos,
        pos + (s.len() - k) <= b.len(),
        forall|i: int| k <= i < s.len() ==> b[pos + (i - k)] == ((#[trigger] s[i] as u32) as u8),
    ensures
        dec_chars(b, pos, (s.len() - k) as nat) == Some(
            (s.subrange(k, s.len() as int), pos + (s.len() - k)),
        ),
    decreases s.len() - k,
{
    if k == s.len() {
        assert(s.subrange(k, s.len() as int) =~= Seq::<char>::empty());
    } else {
        let u: u32 = s[k] as u32;
        assert(u < 128);
        assert(b[pos] == (u as u8));
        assert(b[pos] as u32 == u);
        vstd::utf8::char_u32_cast(s[k], u);
        assert((b[pos] as u32) as char == s[k]);
        lemma_dec_chars(s, k + 1, b, pos + 1);
        assert(seq![(b[pos] as u32) as char] + s.subrange(k + 1, s.len() as int) =~= s.subrange(
            k,
            s.len() as int,
        ));
    }
}

/// Instruction tags of the wire format.
pub open spec fn tag_of(m: BytecodeModel) -> u8 {
    match m {
        BytecodeModel::PushNumber(_) => 1u8,
        BytecodeModel::Add => 2u8,
        BytecodeModel::Sub => 3u8,
        BytecodeModel::Mul => 4u8,
        BytecodeModel::Div => 5u8,
        BytecodeModel::Sin => 6u8,
        BytecodeModel::Cos => 7u8,
        BytecodeModel::Tan => 8u8,
        BytecodeModel::Cot => 9u8,
        BytecodeModel::Sec => 10u8,
        BytecodeModel::Csc => 11u8,
        BytecodeModel::Sinh => 12u8,
        BytecodeModel::Cosh => 13u8,
        BytecodeModel::Tanh => 14u8,
        BytecodeModel::Asinh => 15u8,
        BytecodeModel::Acosh => 16u8,
        BytecodeModel::Atanh => 17u8,
        BytecodeModel::Exp => 18u8,
        BytecodeModel::Log => 19u8,
        BytecodeModel::Log10 => 20u8,
        BytecodeModel::Log2 => 21u8,
        BytecodeModel::Sqrt => 22u8,
        BytecodeModel::Abs => 23u8,
        BytecodeModel::Asin => 24u8,
        BytecodeModel::Acos => 25u8,
        BytecodeModel::Atan => 26u8,
        BytecodeModel::Acot => 27u8,
        BytecodeModel::Asec => 28u8,
        BytecodeModel::Acsc => 29u8,
        BytecodeModel::Pow => 30u8,
        BytecodeModel::Fact => 31u8,
        BytecodeModel::LogBase => 32u8,
        BytecodeModel::Floor => 33u8,
        BytecodeModel::Rand => 34u8,
        BytecodeModel::RandInt => 35u8,
        BytecodeModel::StoreVar(_) => 36u8,
        BytecodeModel::LoadVar(_) => 37u8,
        BytecodeModel::CallUserFunction(_) => 38u8,
        BytecodeModel::SumLoop { .. } => 39u8,
        BytecodeModel::ProductLoop { .. } => 40u8,
    }
}

/// The payload-free instruction a tag stands for, if any.
pub open spec fn simple_of_tag(t: u8) -> Option<BytecodeModel> {
    if t == 2u8 {
        Some(BytecodeModel::Add)
    } else if t == 3u8 {
        Some(BytecodeModel::Sub)
    } else if t == 4u8 {
        Some(BytecodeModel::Mul)
    } else if t == 5u8 {
        Some(BytecodeModel::Div)
    } else if t == 6u8 {
        Some(BytecodeModel::Sin)
    } else if t == 7u8 {
        Some(BytecodeModel::Cos)
    } else if t == 8u8 {
        Some(BytecodeModel::Tan)
    } else if t == 9u8 {
        Some(BytecodeModel::Cot)
    } else if t == 10u8 {
        Some(BytecodeModel::Sec)
    } else if t == 11u8 {
        Some(BytecodeModel::Csc)
    } else if t == 12u8 {
        Some(BytecodeModel::Sinh)
    } else if t == 13u8 {
        Some(BytecodeModel::Cosh)
    } else if t == 14u8 {
        Some(BytecodeModel::Tanh)
    } else if t == 15u8 {
        Some(BytecodeModel::Asinh)
    } else if t == 16u8 {
        Some(BytecodeModel::Acosh)
    } else if t == 17u8 {
        Some(BytecodeModel::Atanh)
    } else if t == 18u8 {
        Some(BytecodeModel::Exp)
    } else if t == 19u8 {
        Some(BytecodeModel::Log)
    } else if t == 20u8 {
        Some(BytecodeModel::Log10)
    } else if t == 21u8 {
        Some(BytecodeModel::Log2)
    } else if t == 22u8 {
        Some(BytecodeModel::Sqrt)
    } else if t == 23u8 {
        Some(BytecodeModel::Abs)
    } else if t == 24u8 {
        Some(BytecodeModel::Asin)
    } else if t == 25u8 {
        Some(BytecodeModel::Acos)
    } else if t == 26u8 {
        Some(BytecodeModel::Atan)
    } else if t == 27u8 {
        Some(BytecodeModel::Acot)
    } else if t == 28u8 {
        Some(BytecodeModel::Asec)
    } else if t == 29u8 {
        Some(BytecodeModel::Acsc)
    } else if t == 30u8 {
        Some(BytecodeModel::Pow)
    } else if t == 31u8 {
        Some(BytecodeModel::Fact)
    } else if t == 32u8 {
        Some(BytecodeModel::LogBase)
    } else if t == 33u8 {
        Some(BytecodeModel::Floor)
    } else if t == 34u8 {
        Some(BytecodeModel::Rand)
    } else if t == 35u8 {
        Some(BytecodeModel::RandInt)
    } else {
        None
    }
}

/// True for the instructions that carry no payload.
pub open spec fn is_simple(m: BytecodeModel) -> bool {
    2 <= tag_of(m) <= 35
}

/// Bytes of one instruction.
pub open spec fn enc_instr(m: BytecodeModel) -> Seq<u8>
    decreases m, 0nat,
{
    match m {
        BytecodeModel::PushNumber(s) => seq![1u8] + enc_str(s),
        BytecodeModel::StoreVar(s) => seq![36u8] + enc_str(s),
        BytecodeModel::LoadVar(s) => seq![37u8] + enc_str(s),
        BytecodeModel::CallUserFunction(s) => seq![38u8] + enc_str(s),
        BytecodeModel::SumLoop { from, to, param, body } => seq![39u8] + enc_prog(from) + enc_prog(
            to,
        ) + enc_str(param) + enc_prog(body),
        BytecodeModel::ProductLoop { from, to, param, body } => seq![40u8] + enc_prog(from)
            + enc_prog(to) + enc_str(param) + enc_prog(body),
        _ => seq![tag_of(m)],
    }
}

/// Bytes of a (sub-)program: a 32-bit count, then the instructions.
pub open spec fn enc_prog(ms: Seq<BytecodeModel>) -> Seq<u8>
    decreases ms, 1nat,
{
    le32(ms.len() as nat) + enc_items(ms)
}

/// Bytes of the instructions of a program, in order.
pub open spec fn enc_items(ms: Seq<BytecodeModel>) -> Seq<u8>
    decreases ms, 0nat,
{
    if ms.len() == 0 {
        Seq::empty()
    } else {
        enc_instr(ms[0]) + enc_items(ms.subrange(1, ms.len() as int))
    }
}

/// Bytes of a whole encoded program file.
pub open spec fn enc_full(ms: Seq<BytecodeModel>) -> Seq<u8> {
    header() + enc_prog(ms)
}

/// When an instruction can be encoded: its strings are ASCII and short
/// enough, and its sub-programs are encodable.
pub open spec fn encodable_instr(m: BytecodeModel) -> bool
    decreases m, 1nat,
{
    match m {
        BytecodeModel::PushNumber(s) => str_ok(s),
        BytecodeModel::StoreVar(s) => str_ok(s),
        BytecodeModel::LoadVar(s) => str_ok(s),
        BytecodeModel::CallUserFunction(s) => str_ok(s),
        BytecodeModel::SumLoop { from, to, param, body } => encodable_prog(from)
            && encodable_prog(to) && str_ok(param) && encodable_prog(body),
        BytecodeModel::ProductLoop { from, to, param, body } => encodable_prog(from)
            && encodable_prog(to) && str_ok(param) && encodable_prog(body),
        _ => true,
    }
}

/// When a program can be encoded.
pub open spec fn encodable_prog(ms: Seq<BytecodeModel>) -> bool
    decreases ms, 0nat,
{
    ms.len() < 4294967296 && (forall|i: int|
        0 <= i < ms.len() ==> encodable_instr(#[trigger] ms[i]))
}

/// Reads one instruction.
pub open spec fn dec_instr(b: Seq<u8>, pos: int) -> Option<(BytecodeModel, int)>
    decreases b.len() - pos, 0nat, 0nat,
    when pos >= 0
{
    if pos < b.len() {
        let t = b[pos];
        if t == 1u8 {
            match dec_str(b, pos + 1) {
                Some((s, p)) => Some((BytecodeModel::PushNumber(s), p)),
                None => None,
            }
        } else if 2 <= t <= 35 {
            match simple_of_tag(t) {
                Some(m) => Some((m, pos + 1)),
                None => None,
            }
        } else if t == 36u8 {
            match dec_str(b, pos + 1) {
                Some((s, p)) => Some((BytecodeModel::StoreVar(s), p)),
                None => None,
            }
        } else if t == 37u8 {
            match dec_str(b, pos + 1) {
                Some((s, p)) => Some((BytecodeModel::LoadVar(s), p)),
                None => None,
            }
        } else if t == 38u8 {
            match dec_str(b, pos + 1) {
                Some((s, p)) => Some((BytecodeModel::CallUserFunction(s), p)),
                None => None,
            }
        } else if t == 39u8 || t == 40u8 {
            match dec_prog(b, pos + 1) {
                Some((from, p1)) => if p1 <= pos + 1 || p1 > b.len() {
                    None
                } else {
                    match dec_prog(b, p1) {
                        Some((to, p2)) => if p2 <= p1 || p2 > b.len() {
                            None
                        } else {
                            match dec_str(b, p2) {
                                Some((param, p3)) => if p3 < p2 || p3 > b.len() {
                                    None
                                } else {
                                    match dec_prog(b, p3) {
                                        Some((body, p4)) => if t == 39u8 {
                                            Some(
                                                (
                                                    BytecodeModel::SumLoop { from, to, param, body },
                                                    p4,
                                                ),
                                            )
                                        } else {
                                            Some(
                                                (
                                                    BytecodeModel::ProductLoop {
                                                        from,
                                                        to,
                                                        param,
                                                        body,
                                                    },
                                                    p4,
                                                ),
                                            )
                                        },
                                        None => None,
                                    }
                                },
                                None => None,
                            }
                        },
                        None => None,
                    }
                },
                None => None,
            }
        } else {
            None
        }
    } else {
        None
    }
}

/// Reads a (sub-)program: a count, then that many instructions.
pub open spec fn dec_prog(b: Seq<u8>, pos: int) -> Option<(Seq<BytecodeModel>, int)>
    decreases b.len() - pos, 0nat, 1nat,
    when pos >= 0
{
    match dec_u32(b, pos) {
        Some((n, p1)) => dec_items(b, p1, n),
        None => None,
    }
}

/// Reads `n` instructions.
pub open spec fn dec_items(b: Seq<u8>, pos: int, n: nat) -> Option<(Seq<BytecodeModel>, int)>
    decreases b.len() - pos, n, 2nat,
    when pos >= 0
{
    if n == 0 {
        Some((Seq::empty(), pos))
    } else {
        match dec_instr(b, pos) {
            Some((m, p1)) => if p1 <= pos || p1 > b.len() {
                None
            } else {
                match dec_items(b, p1, (n - 1) as nat) {
                    Some((ms, p2)) => Some((seq![m] + ms, p2)),
                    None => None,
                }
            },
            None => None,
        }
    }
}

/// Reads a whole encoded program file: header, program, nothing after.
pub open spec fn dec_full(b: Seq<u8>) -> Option<Seq<BytecodeModel>> {
    if b.len() >= 5 && b.subrange(0, 5) =~= header() {
        match dec_prog(b, 5) {
            Some((ms, p)) => if p == b.len() {
                Some(ms)
            } else {
                None
            },
            None => None,
        }
    } else {
        None
    }
}

/// A byte range within an established byte range.
proof fn lemma_subrange_part(b: Seq<u8>, pos: int, whole: Seq<u8>, off: int, part: Seq<u8>)
    requires
        0 <= pos,
        pos + whole.len() <= b.len(),
        b.subrange(pos, pos + whole.len() as int) =~= whole,
        0 <= off,
        off + part.len() <= whole.len(),
        whole.subrange(off, off + part.len() as int) =~= part,
    ensures
        b.subrange(pos + off, pos + off + part.len() as int) =~= part,
{
    assert forall|i: int| 0 <= i < part.len() implies b.subrange(
        pos + off,
        pos + off + part.len() as int,
    )[i] == part[i] by {
        assert(b[pos + off + i] == b.subrange(pos, pos + whole.len() as int)[off + i]);
        assert(whole[off + i] == whole.subrange(off, off + part.len() as int)[i]);
    }
}

/// Decoding the encoding of one instruction gives the instruction back.
#[verifier::rlimit(80)]
#[verifier::spinoff_prover]
pub proof fn lemma_dec_instr(m: BytecodeModel, b: Seq<u8>, pos: int)
    requires
        encodable_instr(m),
        0 <= pos,
        pos + enc_instr(m).len() <= b.len(),
        b.subrange(pos, pos + enc_instr(m).len() as int) =~= enc_instr(m),
    ensures
        dec_instr(b, pos) == Some((m, pos + enc_instr(m).len())),
    decreases m, 0nat,
{
    let e = enc_instr(m);
    assert(b[pos] == e[0]);
    match m {
        BytecodeModel::PushNumber(s) => {
            lemma_subrange_part(b, pos, e, 1, enc_str(s));
            lemma_dec_str(s, b, pos + 1);
        },
        BytecodeModel::StoreVar(s) => {
            lemma_subrange_part(b, pos, e, 1, enc_str(s));
            lemma_dec_str(s, b, pos + 1);
        },
        BytecodeModel::LoadVar(s) => {
            lemma_subrange_part(b, pos, e, 1, enc_str(s));
            lemma_dec_str(s, b, pos + 1);
        },
        BytecodeModel::CallUserFunction(s) => {
            lemma_subrange_part(b, pos, e, 1, enc_str(s));
            lemma_dec_str(s, b, pos + 1);
        },
        BytecodeModel::SumLoop { from, to, param, body } => {
            let lf = enc_prog(from).len() as int;
            let lt = enc_prog(to).len() as int;
            let lp = enc_str(param).len() as int;
            assert(e =~= seq![39u8] + enc_prog(from) + enc_prog(to) + enc_str(param) + enc_prog(
                body,
            ));
            assert(e.subrange(1, 1 + lf) =~= enc_prog(from));
            assert(e.subrange(1 + lf, 1 + lf + lt) =~= enc_prog(to));
            assert(e.subrange(1 + lf + lt, 1 + lf + lt + lp) =~= enc_str(param));
            assert(e.subrange(1 + lf + lt + lp, e.len() as int) =~= enc_prog(body));
            lemma_subrange_part(b, pos, e, 1, enc_prog(from));
            lemma_subrange_part(b, pos, e, 1 + lf, enc_prog(to));
            lemma_subrange_part(b, pos, e, 1 + lf + lt, enc_str(param));
            lemma_subrange_part(b, pos, e, 1 + lf + lt + lp, enc_prog(body));
            lemma_dec_prog(from, b, pos + 1);
            lemma_dec_prog(to, b, pos + 1 + lf);
            lemma_dec_str(param, b, pos + 1 + lf + lt);
            lemma_dec_prog(body, b, pos + 1 + lf + lt + lp);
        },
        BytecodeModel::ProductLoop { from, to, param, body } => {
            let lf = enc_prog(from).len() as int;
            let lt = enc_prog(to).len() as int;
            let lp = enc_str(param).len() as int;
            assert(e =~= seq![40u8] + enc_prog(from) + enc_prog(to) + enc_str(param) + enc_prog(
                body,
            ));
            assert(e.subrange(1, 1 + lf) =~= enc_prog(from));
            assert(e.subrange(1 + lf, 1 + lf + lt) =~= enc_prog(to));
            assert(e.subrange(1 + lf + lt, 1 + lf + lt + lp) =~= enc_str(param));
            assert(e.subrange(1 + lf + lt + lp, e.len() as int) =~= enc_prog(body));
            lemma_subrange_part(b, pos, e, 1, enc_prog(from));
            lemma_subrange_part(b, pos, e, 1 + lf, enc_prog(to));
            lemma_subrange_part(b, pos, e, 1 + lf + lt, enc_str(param));
            lemma_subrange_part(b, pos, e, 1 + lf + lt + lp, enc_prog(body));
            lemma_dec_prog(from, b, pos + 1);
            lemma_dec_prog(to, b, pos + 1 + lf);
            lemma_dec_str(param, b, pos + 1 + lf + lt);
            lemma_dec_prog(body, b, pos + 1 + lf + lt + lp);
        },
        _ => {
            assert(e =~= seq![tag_of(m)]);
        },
    }
}

/// Decoding the encoding of a program gives the program back.
pub proof fn lemma_dec_prog(ms: Seq<BytecodeModel>, b: Seq<u8>, pos: int)
    requires
        encodable_prog(ms),
        0 <= pos,
        pos + enc_prog(ms).len() <= b.len(),
        b.subrange(pos, pos + enc_prog(ms).len() as int) =~= enc_prog(ms),
    ensures
        dec_prog(b, pos) == Some((ms, pos + enc_prog(ms).len())),
    decreases ms, 2nat,
{
    let e = enc_prog(ms);
    assert(e =~= le32(ms.len() as nat) + enc_items(ms));
    assert(e.subrange(0, 4) =~= le32(ms.len() as nat));
    lemma_subrange_part(b, pos, e, 0, le32(ms.len() as nat));
    lemma_dec_u32(ms.len() as nat, b, pos);
    assert(e.subrange(4, e.len() as int) =~= enc_items(ms));
    lemma_subrange_part(b, pos, e, 4, enc_items(ms));
    lemma_dec_items(ms, b, pos + 4);
}

/// Decoding `ms.len()` instructions from the encoding of `ms` gives `ms`.
pub proof fn lemma_dec_items(ms: Seq<BytecodeModel>, b: Seq<u8>, pos: int)
    requires
        encodable_prog(ms),
        0 <= pos,
        pos + enc_items(ms).len() <= b.len(),
        b.subrange(pos, pos + enc_items(ms).len() as int) =~= enc_items(ms),
    ensures
        dec_items(b, pos, ms.len() as nat) == Some((ms, pos + enc_items(ms).len())),
    decreases ms, 1nat,
{
    if ms.len() == 0 {
        assert(ms =~= Seq::<BytecodeModel>::empty());
    } else {
        let e = enc_items(ms);
        let rest = ms.subrange(1, ms.len() as int);
        assert(encodable_instr(ms[0]));
        assert(encodable_prog(rest)) by {
            assert(forall|i: int|
                0 <= i < rest.len() ==> #[trigger] rest[i] == ms[i + 1] && encodable_instr(
                    ms[i + 1],
                ));
        }
        assert(e =~= enc_instr(ms[0]) + enc_items(rest));
        assert(e.subrange(0, enc_instr(ms[0]).len() as int) =~= enc_instr(ms[0]));
        lemma_subrange_part(b, pos, e, 0, enc_instr(ms[0]));
        lemma_dec_instr(ms[0], b, pos);
        let p1 = pos + enc_instr(ms[0]).len() as int;
        assert(e.subrange(enc_instr(ms[0]).len() as int, e.len() as int) =~= enc_items(rest));
        lemma_subrange_part(b, pos, e, enc_instr(ms[0]).len() as int, enc_items(rest));
        lemma_dec_items(rest, b, p1);
        assert(enc_instr(ms[0]).len() >= 1);
        assert(seq![ms[0]] + rest =~= ms);
    }
}

/// Round trip: decoding the encoding of any encodable program gives the
/// program back, loop sub-programs included.
pub proof fn lemma_round_trip_prog(ms: Seq<BytecodeModel>)
    requires
        encodable_prog(ms),
    ensures
        dec_full(enc_full(ms)) == Some(ms),
{
    let b = enc_full(ms);
    assert(b.subrange(0, 5) =~= header());
    assert(b.subrange(5, 5 + enc_prog(ms).len() as int) =~= enc_prog(ms));
    lemma_dec_prog(ms, b, 5);
}

/// Decoding `n` in-range ASCII bytes succeeds.
proof fn lemma_dec_chars_ok(b: Seq<u8>, pos: int, n: nat)
    requires
        0 <= pos,
        pos + n <= b.len(),
        forall|k: int| 0 <= k < n ==> #[trigger] b[pos + k] < 128,
    ensures
        dec_chars(b, pos, n) == Some(
            (Seq::new(n, |k: int| (b[pos + k] as u32) as char), pos + n),
        ),
    decreases n,
{
    if n == 0 {
        assert(Seq::new(0, |k: int| (b[pos + k] as u32) as char) =~= Seq::<char>::empty());
    } else {
        assert(b[pos + 0] < 128);
        assert forall|k: int| 0 <= k < n - 1 implies #[trigger] b[pos + 1 + k] < 128 by {
            assert(b[pos + (k + 1)] < 128);
        }
        lemma_dec_chars_ok(b, pos + 1, (n - 1) as nat);
        assert(seq![(b[pos] as u32) as char] + Seq::new(
            (n - 1) as nat,
            |k: int| (b[pos + 1 + k] as u32) as char,
        ) =~= Seq::new(n, |k: int| (b[pos + k] as u32) as char));
    }
}

/// Decoding fails when some needed byte is missing or not ASCII.
proof fn lemma_dec_chars_fail(b: Seq<u8>, pos: int, n: nat, k: int)
    requires
        0 <= pos,
        0 <= k < n,
        pos + k >= b.len() || b[pos + k] >= 128,
    ensures
        dec_chars(b, pos, n) is None,
    decreases n,
{
    if pos < b.len() && b[pos] < 128 {
        lemma_dec_chars_fail(b, pos + 1, (n - 1) as nat, k - 1);
    }
}

/// Appends the four little-endian bytes of `n`.
fn push_u32(out: &mut Vec<u8>, n: u32)
    ensures
        final(out)@ =~= old(out)@ + le32(n as nat),
{
    out.push((n % 256) as u8);
    out.push(((n / 256) % 256) as u8);
    out.push(((n / 65536) % 256) as u8);
    out.push(((n / 16777216) % 256) as u8);
}

/// Appends a length-prefixed ASCII string, or reports that it cannot be
/// encoded.
fn write_str(s: &str, out: &mut Vec<u8>) -> (ok: bool)
    ensures
        ok ==> str_ok(s@) && final(out)@ =~= old(out)@ + enc_str(s@),
        !ok ==> !str_ok(s@),
{
    let n = s.unicode_len();
    if (n as u64) >= 4294967296u64 {
        return false;
    }
    let mut i: usize = 0;
    while i < n
        invariant
            i <= n,
            n as nat == s@.len(),
            forall|k: int| 0 <= k < i ==> (#[trigger] s@[k] as u32) < 128,
        decreases n - i,
    {
        let c = s.get_char(i);
        if (c as u32) >= 128 {
            return false;
        }
        i = i + 1;
    }
    push_u32(out, n as u32);
    let ghost mid = out@;
    let mut i: usize = 0;
    while i < n
        invariant
            i <= n,
            n as nat == s@.len(),
            str_ok(s@),
            out@ =~= mid + Seq::new(i as nat, |k: int| (s@[k] as u32) as u8),
        decreases n - i,
    {
        let c = s.get_char(i);
        out.push(c as u8);
        proof {
            assert((s@[i as int] as u32) < 128);
            assert(c as u8 == (s@[i as int] as u32) as u8);
            assert(out@ =~= mid + Seq::new((i + 1) as nat, |k: int| (s@[k] as u32) as u8));
        }
        i = i + 1;
    }
    proof {
        assert(Seq::new(n as nat, |k: int| (s@[k] as u32) as u8) =~= Seq::new(
            s@.len(),
            |k: int| (s@[k] as u32) as u8,
        ));
    }
    true
}

/// Appends the encoding of one instruction, or reports that it cannot be
/// encoded.
fn write_instr(ins: &Bytecode, out: &mut Vec<u8>) -> (ok: bool)
    ensures
        ok ==> encodable_instr(bc_model(*ins)) && final(out)@ =~= old(out)@ + enc_instr(bc_model(*ins)),
        !ok ==> !encodable_instr(bc_model(*ins)),
    decreases *ins,
{
    match ins {
        Bytecode::PushNumber(t) => {
            out.push(1u8);
            if !write_str(t.as_str(), out) {
                return false;
            }
            true
        },
        Bytecode::StoreVar(t) => {
            out.push(36u8);
            if !write_str(t.as_str(), out) {
                return false;
            }
            true
        },
        Bytecode::LoadVar(t) => {
            out.push(37u8);
            if !write_str(t.as_str(), out) {
                return false;
            }
            true
        },
        Bytecode::CallUserFunction(t) => {
            out.push(38u8);
            if !write_str(t.as_str(), out) {
                return false;
            }
            true
        },
        Bytecode::SumLoop { from, to, param, body } => {
            proof {
                assert(decreases_to!(*ins => *from));
                assert(decreases_to!(*ins => *to));
                assert(decreases_to!(*ins => *body));
            }
            out.push(39u8);
            if !write_prog(from, out) {
                return false;
            }
            if !write_prog(to, out) {
                return false;
            }
            if !write_str(param.as_str(), out) {
                return false;
            }
            if !write_prog(body, out) {
                return false;
            }
            true
        },
        Bytecode::ProductLoop { from, to, param, body } => {
            proof {
                assert(decreases_to!(*ins => *from));
                assert(decreases_to!(*ins => *to));
                assert(decreases_to!(*ins => *body));
            }
            out.push(40u8);
            if !write_prog(from, out) {
                return false;
            }
            if !write_prog(to, out) {
                return false;
            }
            if !write_str(param.as_str(), out) {
                return false;
            }
            if !write_prog(body, out) {
                return false;
            }
            true
        },
        Bytecode::Add => { out.push(2u8); true },
        Bytecode::Sub => { out.push(3u8); true },
        Bytecode::Mul => { out.push(4u8); true },
        Bytecode::Div => { out.push(5u8); true },
        Bytecode::Sin => { out.push(6u8); true },
        Bytecode::Cos => { out.push(7u8); true },
        Bytecode::Tan => { out.push(8u8); true },
        Bytecode::Cot => { out.push(9u8); true },
        Bytecode::Sec => { out.push(10u8); true },
        Bytecode::Csc => { out.push(11u8); true },
        Bytecode::Sinh => { out.push(12u8); true },
        Bytecode::Cosh => { out.push(13u8); true },
        Bytecode::Tanh => { out.push(14u8); true },
        Bytecode::Asinh => { out.push(15u8); true },
        Bytecode::Acosh => { out.push(16u8); true },
        Bytecode::Atanh => { out.push(17u8); true },
        Bytecode::Exp => { out.push(18u8); true },
        Bytecode::Log => { out.push(19u8); true },
        Bytecode::Log10 => { out.push(20u8); true },
        Bytecode::Log2 => { out.push(21u8); true },
        Bytecode::Sqrt => { out.push(22u8); true },
        Bytecode::Abs => { out.push(23u8); true },
        Bytecode::Asin => { out.push(24u8); true },
        Bytecode::Acos => { out.push(25u8); true },
        Bytecode::Atan => { out.push(26u8); true },
        Bytecode::Acot => { out.push(27u8); true },
        Bytecode::Asec => { out.push(28u8); true },
        Bytecode::Acsc => { out.push(29u8); true },
        Bytecode::Pow => { out.push(30u8); true },
        Bytecode::Fact => { out.push(31u8); true },
        Bytecode::LogBase => { out.push(32u8); true },
        Bytecode::Floor => { out.push(33u8); true },
        Bytecode::Rand => { out.push(34u8); true },
        Bytecode::RandInt => { out.push(35u8); true },
    }
}

/// `enc_items` of one more instruction.
proof fn lemma_enc_items_snoc(ms: Seq<BytecodeModel>, i: int)
    requires
        0 <= i < ms.len(),
    ensures
        enc_items(ms.subrange(0, i + 1)) =~= enc_items(ms.subrange(0, i)) + enc_instr(ms[i]),
    decreases i,
{
    let a = ms.subrange(0, i + 1);
    let c = ms.subrange(0, i);
    if i == 0 {
        assert(a.subrange(1, a.len() as int) =~= Seq::<BytecodeModel>::empty());
        assert(c =~= Seq::<BytecodeModel>::empty());
        assert(enc_items(a) =~= enc_instr(ms[0]) + enc_items(a.subrange(1, a.len() as int)));
    } else {
        let ms2 = ms.subrange(1, ms.len() as int);
        lemma_enc_items_snoc(ms2, i - 1);
        assert(a.subrange(1, a.len() as int) =~= ms2.subrange(0, i));
        assert(c.subrange(1, c.len() as int) =~= ms2.subrange(0, i - 1));
        assert(ms2[i - 1] == ms[i]);
        assert(enc_items(a) =~= enc_instr(ms[0]) + enc_items(ms2.subrange(0, i)));
        assert(enc_items(c) =~= enc_instr(ms[0]) + enc_items(ms2.subrange(0, i - 1)));
    }
}

/// Appends the encoding of a whole (sub-)program, or reports that it cannot
/// be encoded.
fn write_prog(p: &Vec<Bytecode>, out: &mut Vec<u8>) -> (ok: bool)
    ensures
        ok ==> encodable_prog(prog_model(p@)) && final(out)@ =~= old(out)@ + enc_prog(prog_model(p@)),
        !ok ==> !encodable_prog(prog_model(p@)),
    decreases *p,
{
    proof {
        lemma_prog_model_len(p@);
    }
    let ghost ms = prog_model(p@);
    let n = p.len();
    if (n as u64) >= 4294967296u64 {
        return false;
    }
    push_u32(out, n as u32);
    let ghost mid = out@;
    let mut i: usize = 0;
    while i < n
        invariant
            i <= n,
            n == p@.len(),
            ms == prog_model(p@),
            ms.len() == n,
            forall|j: int| 0 <= j < n ==> ms[j] == bc_model(#[trigger] p@[j]),
            forall|j: int| 0 <= j < i ==> encodable_instr(#[trigger] ms[j]),
            out@ =~= mid + enc_items(ms.subrange(0, i as int)),
        decreases n - i,
    {
        proof {
            assert(decreases_to!(*p => p@[i as int]));
        }
        let ok = write_instr(&p[i], out);
        if !ok {
            proof {
                assert(!encodable_instr(ms[i as int]));
            }
            return false;
        }
        proof {
            lemma_enc_items_snoc(ms, i as int);
        }
        i = i + 1;
    }
    proof {
        assert(ms.subrange(0, n as int) =~= ms);
    }
    true
}

/// Encodes a program into its binary form.  Returns `None` exactly when the
/// program cannot be encoded: some name or literal in it is not ASCII, or a
/// length does not fit 32 bits.
pub fn encode_program(p: &Program) -> (r: Option<Vec<u8>>)
    ensures
        match r {
            Some(b) => encodable_prog(prog_model(p@)) && b@ == enc_full(prog_model(p@)),
            None => !encodable_prog(prog_model(p@)),
        },
{
    let mut out: Vec<u8> = Vec::new();
    out.push(77u8);
    out.push(84u8);
    out.push(72u8);
    out.push(67u8);
    out.push(1u8);
    proof {
        assert(out@ =~= header());
    }
    if write_prog(p, &mut out) {
        proof {
            assert(out@ =~= enc_full(prog_model(p@)));
        }
        Some(out)
    } else {
        None
    }
}

/// Relies on `String::from_utf8`: bytes below 128 decode to exactly one
/// character each, the character with that code.
#[verifier::external_body]
fn ascii_bytes_to_string(v: Vec<u8>) -> (r: String)
    requires
        forall|i: int| 0 <= i < v@.len() ==> #[trigger] v@[i] < 128,
    ensures
        r@.len() == v@.len(),
        forall|i: int| 0 <= i < v@.len() ==> r@[i] == ((#[trigger] v@[i] as u32) as char),
{
    String::from_utf8(v).unwrap_or_default()
}

/// Reads a 32-bit little-endian value.
fn read_u32(b: &Vec<u8>, pos: usize) -> (r: Option<(u32, usize)>)
    ensures
        match r {
            Some((n, p)) => dec_u32(b@, pos as int) == Some((n as nat, p as int)) && p
                <= b@.len(),
            None => dec_u32(b@, pos as int) is None,
        },
{
    if b.len() >= 4 && pos <= b.len() - 4 {
        let n: u32 = (b[pos] as u32) + (b[pos + 1] as u32) * 256 + (b[pos + 2] as u32) * 65536 + (
        b[pos + 3] as u32) * 16777216;
        Some((n, pos + 4))
    } else {
        None
    }
}

/// Reads a length-prefixed ASCII string.
fn read_str(b: &Vec<u8>, pos: usize) -> (r: Option<(String, usize)>)
    ensures
        match r {
            Some((s, p)) => dec_str(b@, pos as int) == Some((s@, p as int)) && p <= b@.len(),
            None => dec_str(b@, pos as int) is None,
        },
{
    let (n, pos1) = match read_u32(b, pos) {
        Some(x) => x,
        None => { return None; },
    };
    let n_us = n as usize;
    let mut bytes: Vec<u8> = Vec::new();
    let mut i: usize = 0;
    while i < n_us
        invariant
            i <= n_us,
            n_us == n as nat,
            pos1 <= b@.len(),
            dec_u32(b@, pos as int) == Some((n as nat, pos1 as int)),
            bytes@.len() == i,
            pos1 + i <= b@.len(),
            forall|k: int| 0 <= k < i ==> #[trigger] b@[pos1 + k] < 128,
            forall|k: int| 0 <= k < i ==> bytes@[k] == #[trigger] b@[pos1 + k],
        decreases n_us - i,
    {
        if i >= b.len() - pos1 || b[pos1 + i] >= 128 {
            proof {
                lemma_dec_chars_fail(b@, pos1 as int, n as nat, i as int);
            }
            return None;
        }
        bytes.push(b[pos1 + i]);
        i = i + 1;
    }
    proof {
        lemma_dec_chars_ok(b@, pos1 as int, n as nat);
        assert forall|k: int| 0 <= k < bytes@.len() implies #[trigger] bytes@[k] < 128 by {
            assert(bytes@[k] == b@[pos1 + k]);
        }
    }
    proof {
        assert(pos1 + n_us <= b@.len());
        vstd::std_specs::vec::axiom_spec_len(b);
    }
    let p = pos1 + n_us;
    let st = ascii_bytes_to_string(bytes);
    proof {
        assert(st@ =~= Seq::new(n as nat, |k: int| (b@[pos1 + k] as u32) as char));
    }
    Some((st, p))
}

/// The executable twin of `simple_of_tag`.
fn simple_instr_of_tag(t: u8) -> (r: Option<Bytecode>)
    ensures
        match r {
            Some(ins) => simple_of_tag(t) == Some(bc_model(ins)),
            None => simple_of_tag(t) is None,
        },
{
    match t {
        2u8 => Some(Bytecode::Add),
        3u8 => Some(Bytecode::Sub),
        4u8 => Some(Bytecode::Mul),
        5u8 => Some(Bytecode::Div),
        6u8 => Some(Bytecode::Sin),
        7u8 => Some(Bytecode::Cos),
        8u8 => Some(Bytecode::Tan),
        9u8 => Some(Bytecode::Cot),
        10u8 => Some(Bytecode::Sec),
        11u8 => Some(Bytecode::Csc),
        12u8 => Some(Bytecode::Sinh),
        13u8 => Some(Bytecode::Cosh),
        14u8 => Some(Bytecode::Tanh),
        15u8 => Some(Bytecode::Asinh),
        16u8 => Some(Bytecode::Acosh),
        17u8 => Some(Bytecode::Atanh),
        18u8 => Some(Bytecode::Exp),
        19u8 => Some(Bytecode::Log),
        20u8 => Some(Bytecode::Log10),
        21u8 => Some(Bytecode::Log2),
        22u8 => Some(Bytecode::Sqrt),
        23u8 => Some(Bytecode::Abs),
        24u8 => Some(Bytecode::Asin),
        25u8 => Some(Bytecode::Acos),
        26u8 => Some(Bytecode::Atan),
        27u8 => Some(Bytecode::Acot),
        28u8 => Some(Bytecode::Asec),
        29u8 => Some(Bytecode::Acsc),
        30u8 => Some(Bytecode::Pow),
        31u8 => Some(Bytecode::Fact),
        32u8 => Some(Bytecode::LogBase),
        33u8 => Some(Bytecode::Floor),
        34u8 => Some(Bytecode::Rand),
        35u8 => Some(Bytecode::RandInt),
        _ => None,
    }
}

/// Reads one instruction.
fn read_instr(b: &Vec<u8>, pos: usize) -> (r: Option<(Bytecode, usize)>)
    ensures
        match r {
            Some((ins, p)) => dec_instr(b@, pos as int) == Some((bc_model(ins), p as int)) && p
                <= b@.len(),
            None => dec_instr(b@, pos as int) is None,
        },
    decreases b@.len() - pos, 0nat, 0nat,
{
    if pos >= b.len() {
        return None;
    }
    let t = b[pos];
    if t == 1u8 || t == 36u8 || t == 37u8 || t == 38u8 {
        match read_str(b, pos + 1) {
            Some((st, p)) => {
                let ins = if t == 1u8 {
                    Bytecode::PushNumber(st)
                } else if t == 36u8 {
                    Bytecode::StoreVar(st)
                } else if t == 37u8 {
                    Bytecode::LoadVar(st)
                } else {
                    Bytecode::CallUserFunction(st)
                };
                Some((ins, p))
            },
            None => None,
        }
    } else if 2 <= t && t <= 35 {
        match simple_instr_of_tag(t) {
            Some(ins) => Some((ins, pos + 1)),
            None => None,
        }
    } else if t == 39u8 || t == 40u8 {
        let (from, p1) = match read_prog(b, pos + 1) {
            Some(x) => x,
            None => { return None; },
        };
        if p1 <= pos + 1 {
            return None;
        }
        let (to, p2) = match read_prog(b, p1) {
            Some(x) => x,
            None => { return None; },
        };
        if p2 <= p1 {
            return None;
        }
        let (param, p3) = match read_str(b, p2) {
            Some(x) => x,
            None => { return None; },
        };
        if p3 < p2 {
            return None;
        }
        let (body, p4) = match read_prog(b, p3) {
            Some(x) => x,
            None => { return None; },
        };
        let ins = if t == 39u8 {
            Bytecode::SumLoop { from, to, param, body }
        } else {
            Bytecode::ProductLoop { from, to, param, body }
        };
        Some((ins, p4))
    } else {
        None
    }
}

/// Reads a (sub-)program: a count, then that many instructions.
fn read_prog(b: &Vec<u8>, pos: usize) -> (r: Option<(Vec<Bytecode>, usize)>)
    ensures
        match r {
            Some((p2, p)) => dec_prog(b@, pos as int) == Some((prog_model(p2@), p as int)) && p
                <= b@.len(),
            None => dec_prog(b@, pos as int) is None,
        },
    decreases b@.len() - pos, 0nat, 1nat,
{
    let (n, p1) = match read_u32(b, pos) {
        Some(x) => x,
        None => { return None; },
    };
    read_items(b, p1, n)
}

/// Reads `n` instructions.
fn read_items(b: &Vec<u8>, pos: usize, n: u32) -> (r: Option<(Vec<Bytecode>, usize)>)
    requires
        pos <= b@.len(),
    ensures
        match r {
            Some((p2, p)) => dec_items(b@, pos as int, n as nat) == Some(
                (prog_model(p2@), p as int),
            ) && p <= b@.len() && pos <= p,
            None => dec_items(b@, pos as int, n as nat) is None,
        },
    decreases b@.len() - pos, n as nat, 2nat,
{
    if n == 0 {
        let empty: Vec<Bytecode> = Vec::new();
        proof {
            assert(prog_model(empty@) =~= Seq::<BytecodeModel>::empty());
        }
        return Some((empty, pos));
    }
    let (m, p1) = match read_instr(b, pos) {
        Some(x) => x,
        None => { return None; },
    };
    if p1 <= pos {
        return None;
    }
    let (rest, p2) = match read_items(b, p1, n - 1) {
        Some(x) => x,
        None => { return None; },
    };
    let ghost rv = rest@;
    let mut out = rest;
    out.insert(0, m);
    proof {
        assert(out@ == rv.insert(0, m));
        assert(out@[0] == m);
        assert(out@.subrange(1, out@.len() as int) =~= rv);
        assert(prog_model(out@) == seq![bc_model(m)] + prog_model(rv));
    }
    Some((out, p2))
}

/// Decodes a binary program file.  Returns `None` exactly when the bytes are
/// not a well-formed encoding: a bad header, a bad tag, a non-ASCII byte in a
/// string, or trailing bytes.
pub fn decode_program(b: &Vec<u8>) -> (r: Option<Program>)
    ensures
        match r {
            Some(p) => dec_full(b@) == Some(prog_model(p@)),
            None => dec_full(b@) is None,
        },
{
    if b.len() < 5 || b[0] != 77u8 || b[1] != 84u8 || b[2] != 72u8 || b[3] != 67u8 || b[4] != 1u8 {
        proof {
            if b@.len() >= 5 {
                assert(!(b@.subrange(0, 5) =~= header())) by {
                    if b@.subrange(0, 5) =~= header() {
                        assert(b@[0] == 77u8 && b@[1] == 84u8 && b@[2] == 72u8 && b@[3] == 67u8
                            && b@[4] == 1u8);
                    }
                }
            }
        }
        return None;
    }
    proof {
        assert(b@.subrange(0, 5) =~= header());
    }
    let (p2, p) = match read_prog(b, 5) {
        Some(x) => x,
        None => { return None; },
    };
    if p == b.len() {
        Some(p2)
    } else {
        None
    }
}

} // verus!
