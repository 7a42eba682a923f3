//! The backend's laws, each proved over the lowering and encoding
//! specifications: opcode flag packing, the fixed shapes of the `While`
//! and `If` lowerings, the capture/restore order of the calling
//! convention, the uniqueness of generated label names, and the
//! determinism of a render.

use vstd::prelude::*;
use vstd::arithmetic::div_mod::lemma_fundamental_div_mod;

use crate::ast::{Bop, Cond, Reg, Stmt, ToNum, Val};
use crate::encode::{
    dec, digit_char, kind_char, label_text, line_text, pack_b, GenKind, Lbl, Line,
};
use crate::lower::{
    args_lines, bump_line, drop_line, lowered_seq, lowered_stmt, pop_line, push_line, ret_lines,
    stamps, stamps_seq, uncond_line,
};
use crate::render::program_text;

verus! {

/// A binary-op statement lowers to exactly one instruction line, whose
/// opcode byte is the base opcode plus 128 when the left operand is an
/// immediate and plus 64 when the right operand is: base + 128 for
/// immediate-left/register-right, base + 192 for both immediate, base + 64
/// for register-left/immediate-right, and the bare base for two registers.
pub proof fn lemma_bin_opcode_flags(op: Bop, l: Val, r: Val, d: Reg, c: nat)
    ensures
        lowered_stmt(Stmt::Bin(op, l, r, d), c) == seq![
            Line::Instr { op: pack_b(op.num(), l, r), a: l.num(), b: r.num(), d: d.num() },
        ],
        l.spec_is_im() && !r.spec_is_im() ==> pack_b(op.num(), l, r) == op.num() + 128,
        l.spec_is_im() && r.spec_is_im() ==> pack_b(op.num(), l, r) == op.num() + 192,
        !l.spec_is_im() && r.spec_is_im() ==> pack_b(op.num(), l, r) == op.num() + 64,
        !l.spec_is_im() && !r.spec_is_im() ==> pack_b(op.num(), l, r) == op.num(),
{
    assert(op.num() <= 14);
}

/// `While` lowers to exactly four fixed lines around the lowered body:
/// the entry label, a guard branch to the exit label whose comparison is
/// the exact logical inverse of the condition's, the lowered body, an
/// unconditional back-branch to the entry label, and the exit label.
pub proof fn lemma_while_lowering(cond: Cond, block: Vec<Stmt>, c: nat)
    ensures
        lowered_stmt(Stmt::While { cond, block }, c).len() == lowered_seq(block@, c + 1).len()
            + 4,
        lowered_stmt(Stmt::While { cond, block }, c)[0] == Line::Label(
            Lbl::Gen(GenKind::Entry, c as u64),
        ),
        lowered_stmt(Stmt::While { cond, block }, c)[1] == (Line::Br {
            op: pack_b(cond.cmp.spec_inv().num(), cond.lhs, cond.rhs),
            a: cond.lhs.num(),
            b: cond.rhs.num(),
            target: Lbl::Gen(GenKind::Exit, c as u64),
        }),
        forall|i: int|
            0 <= i < lowered_seq(block@, c + 1).len() ==> lowered_stmt(
                Stmt::While { cond, block },
                c,
            )[2 + i] == #[trigger] lowered_seq(block@, c + 1)[i],
        lowered_stmt(Stmt::While { cond, block }, c)[2 + lowered_seq(block@, c + 1).len() as int]
            == uncond_line(Lbl::Gen(GenKind::Entry, c as u64)),
        lowered_stmt(Stmt::While { cond, block }, c)[3 + lowered_seq(block@, c + 1).len() as int]
            == Line::Label(Lbl::Gen(GenKind::Exit, c as u64)),
{
}

/// `If` lowers to a branch on the condition to the then-label, the
/// lowered else block, an unconditional skip-jump to the done-label
/// immediately after the else block and before the then-label, the
/// lowered then block, and the done-label. The else block contributes no
/// lines exactly when `no` is empty; the skip-jump preamble itself is
/// always present.
pub proof fn lemma_if_lowering(cond: Cond, yes: Vec<Stmt>, no: Vec<Stmt>, c: nat)
    ensures
        lowered_stmt(Stmt::If { cond, yes, no }, c).len() == lowered_seq(no@, c + 1).len()
            + lowered_seq(yes@, c + 1 + stamps_seq(no@)).len() + 4,
        lowered_stmt(Stmt::If { cond, yes, no }, c)[0] == (Line::Br {
            op: pack_b(cond.cmp.num(), cond.lhs, cond.rhs),
            a: cond.lhs.num(),
            b: cond.rhs.num(),
            target: Lbl::Gen(GenKind::Then, c as u64),
        }),
        forall|i: int|
            0 <= i < lowered_seq(no@, c + 1).len() ==> lowered_stmt(Stmt::If { cond, yes, no }, c)[1
                + i] == #[trigger] lowered_seq(no@, c + 1)[i],
        lowered_stmt(Stmt::If { cond, yes, no }, c)[1 + lowered_seq(no@, c + 1).len() as int]
            == uncond_line(Lbl::Gen(GenKind::Done, c as u64)),
        lowered_stmt(Stmt::If { cond, yes, no }, c)[2 + lowered_seq(no@, c + 1).len() as int]
            == Line::Label(Lbl::Gen(GenKind::Then, c as u64)),
        forall|i: int|
            0 <= i < lowered_seq(yes@, c + 1 + stamps_seq(no@)).len() ==> lowered_stmt(
                Stmt::If { cond, yes, no },
                c,
            )[3 + lowered_seq(no@, c + 1).len() + i] == #[trigger] lowered_seq(
                yes@,
                c + 1 + stamps_seq(no@),
            )[i],
        lowered_stmt(Stmt::If { cond, yes, no }, c)[3 + lowered_seq(no@, c + 1).len()
            + lowered_seq(yes@, c + 1 + stamps_seq(no@)).len() as int] == Line::Label(
            Lbl::Gen(GenKind::Done, c as u64),
        ),
        no@.len() == 0 ==> lowered_seq(no@, c + 1).len() == 0,
{
}

/// The order in which registers 1 to 4 are captured by `Args`.
pub open spec fn capture_order() -> Seq<u8> {
    seq![1, 2, 3, 4]
}

/// `Args` immediately followed by `Ret` restores registers 1 to 4 in the
/// exact reverse of the capture order: captured as (1, 2, 3, 4), restored
/// as (4, 3, 2, 1), with a stack-pointer move between the loads and the
/// return jump last.
pub proof fn lemma_args_ret_reverse(c: nat)
    ensures
        lowered_seq(seq![Stmt::Args, Stmt::Ret], c) == args_lines() + ret_lines(),
        args_lines().len() == 8,
        ret_lines().len() == 11,
        forall|i: int|
            0 <= i < 8 ==> #[trigger] args_lines()[i] == (if i % 2 == 0 {
                bump_line()
            } else {
                push_line(capture_order()[i / 2])
            }),
        ret_lines()[0] == pop_line(0),
        forall|i: int|
            0 <= i < 10 && i % 2 == 1 ==> #[trigger] ret_lines()[i] == drop_line(),
        forall|i: int|
            2 <= i < 10 && i % 2 == 0 ==> #[trigger] ret_lines()[i] == pop_line(
                capture_order().reverse()[i / 2 - 1],
            ),
        ret_lines()[10] == (Line::Instr { op: crate::encode::JMP, a: 0, b: 0, d: 6 }),
{
    let ss = seq![Stmt::Args, Stmt::Ret];
    assert(ss.subrange(1, 2) =~= seq![Stmt::Ret]);
    assert(seq![Stmt::Ret].subrange(1, 1) =~= Seq::<Stmt>::empty());
    assert(stamps(Stmt::Args) == 0);
    assert(stamps(Stmt::Ret) == 0);
    assert(ss[0] == Stmt::Args);
    assert(ss[1] == Stmt::Ret);
    assert(seq![Stmt::Ret][0] == Stmt::Ret);
    assert(lowered_stmt(Stmt::Args, c) == args_lines());
    assert(lowered_stmt(Stmt::Ret, c) == ret_lines());
    assert(lowered_seq(Seq::<Stmt>::empty(), c) == Seq::<Line>::empty());
    assert(lowered_seq(seq![Stmt::Ret], c) =~= ret_lines());
    assert(lowered_seq(ss, c) =~= args_lines() + ret_lines());
    assert(capture_order().reverse() =~= seq![4u8, 3, 2, 1]);
}

/// Whether a label is the generated label of kind `k` with stamp `n`.
pub open spec fn lbl_is_gen(x: Lbl, k: GenKind, n: u64) -> bool {
    x == Lbl::Gen(k, n)
}

/// Whether one line carries the generated label of kind `k`, stamp `n`,
/// in any of its label slots.
pub open spec fn line_mentions(l: Line, k: GenKind, n: u64) -> bool {
    match l {
        Line::Label(x) => lbl_is_gen(x, k, n),
        Line::Instr { .. } => false,
        Line::Br { target, .. } => lbl_is_gen(target, k, n),
        Line::Jump { target } => lbl_is_gen(target, k, n),
    }
}

/// Whether the generated label of kind `k`, stamp `n` appears anywhere in
/// a line sequence.
pub open spec fn mentions_gen(lines: Seq<Line>, k: GenKind, n: u64) -> bool {
    exists|i: int| 0 <= i < lines.len() && line_mentions(lines[i], k, n)
}

/// A generated label appears in a concatenation exactly when it appears
/// in one of the parts.
proof fn lemma_mentions_split(s1: Seq<Line>, s2: Seq<Line>, k: GenKind, n: u64)
    ensures
        mentions_gen(s1 + s2, k, n) <==> (mentions_gen(s1, k, n) || mentions_gen(s2, k, n)),
{
    if mentions_gen(s1 + s2, k, n) {
        let i = choose|i: int| 0 <= i < (s1 + s2).len() && line_mentions((s1 + s2)[i], k, n);
        if i < s1.len() {
            assert((s1 + s2)[i] == s1[i]);
            assert(mentions_gen(s1, k, n));
        } else {
            assert((s1 + s2)[i] == s2[i - s1.len()]);
            assert(mentions_gen(s2, k, n));
        }
    }
    if mentions_gen(s1, k, n) {
        let i = choose|i: int| 0 <= i < s1.len() && line_mentions(s1[i], k, n);
        assert((s1 + s2)[i] == s1[i]);
        assert(mentions_gen(s1 + s2, k, n));
    }
    if mentions_gen(s2, k, n) {
        let i = choose|i: int| 0 <= i < s2.len() && line_mentions(s2[i], k, n);
        assert((s1 + s2)[s1.len() + i] == s2[i]);
        assert(mentions_gen(s1 + s2, k, n));
    }
}

/// Counter discipline of the lowering: every generated label minted while
/// lowering one statement from next free stamp `c` carries a stamp in
/// `[c, c + stamps(s))`. Together with `lemma_gen_label_text_injective`
/// this is what makes all generated names of one render distinct.
pub proof fn lemma_gen_stamp_range(s: Stmt, c: nat, k: GenKind, n: u64)
    requires
        c + stamps(s) <= u64::MAX,
        mentions_gen(lowered_stmt(s, c), k, n),
    ensures
        c <= n < c + stamps(s),
    decreases s,
{
    let lines = lowered_stmt(s, c);
    match s {
        Stmt::While { cond, block } => {
            let head = seq![
                Line::Label(Lbl::Gen(GenKind::Entry, c as u64)),
                Line::Br {
                    op: pack_b(cond.cmp.spec_inv().num(), cond.lhs, cond.rhs),
                    a: cond.lhs.num(),
                    b: cond.rhs.num(),
                    target: Lbl::Gen(GenKind::Exit, c as u64),
                },
            ];
            let body = lowered_seq(block@, c + 1);
            let tail = seq![
                uncond_line(Lbl::Gen(GenKind::Entry, c as u64)),
                Line::Label(Lbl::Gen(GenKind::Exit, c as u64)),
            ];
            lemma_mentions_split(head + body, tail, k, n);
            lemma_mentions_split(head, body, k, n);
            if mentions_gen(body, k, n) {
                lemma_gen_stamp_range_seq(block@, c + 1, k, n);
            }
        },
        Stmt::If { cond, yes, no } => {
            let head = seq![
                Line::Br {
                    op: pack_b(cond.cmp.num(), cond.lhs, cond.rhs),
                    a: cond.lhs.num(),
                    b: cond.rhs.num(),
                    target: Lbl::Gen(GenKind::Then, c as u64),
                },
            ];
            let els = lowered_seq(no@, c + 1);
            let mid = seq![
                uncond_line(Lbl::Gen(GenKind::Done, c as u64)),
                Line::Label(Lbl::Gen(GenKind::Then, c as u64)),
            ];
            let thn = lowered_seq(yes@, c + 1 + stamps_seq(no@));
            let tail = seq![Line::Label(Lbl::Gen(GenKind::Done, c as u64))];
            lemma_mentions_split(head + els + mid + thn, tail, k, n);
            lemma_mentions_split(head + els + mid, thn, k, n);
            lemma_mentions_split(head + els, mid, k, n);
            lemma_mentions_split(head, els, k, n);
            if mentions_gen(els, k, n) {
                lemma_gen_stamp_range_seq(no@, c + 1, k, n);
            }
            if mentions_gen(thn, k, n) {
                lemma_gen_stamp_range_seq(yes@, c + 1 + stamps_seq(no@), k, n);
            }
        },
        Stmt::Loop { block } => {
            let head = seq![Line::Label(Lbl::Gen(GenKind::Entry, c as u64))];
            let body = lowered_seq(block@, c + 1);
            let tail = seq![uncond_line(Lbl::Gen(GenKind::Entry, c as u64))];
            lemma_mentions_split(head + body, tail, k, n);
            lemma_mentions_split(head, body, k, n);
            if mentions_gen(body, k, n) {
                lemma_gen_stamp_range_seq(block@, c + 1, k, n);
            }
        },
        _ => {
            assert(forall|i: int|
                0 <= i < lines.len() ==> !line_mentions(#[trigger] lines[i], k, n));
        },
    }
}

/// Counter discipline over a statement sequence: every generated label
/// carries a stamp in `[c, c + stamps_seq(ss))`.
pub proof fn lemma_gen_stamp_range_seq(ss: Seq<Stmt>, c: nat, k: GenKind, n: u64)
    requires
        c + stamps_seq(ss) <= u64::MAX,
        mentions_gen(lowered_seq(ss, c), k, n),
    ensures
        c <= n < c + stamps_seq(ss),
    decreases ss,
{
    let first = lowered_stmt(ss[0], c);
    let rest = lowered_seq(ss.subrange(1, ss.len() as int), c + stamps(ss[0]));
    lemma_mentions_split(first, rest, k, n);
    if mentions_gen(first, k, n) {
        lemma_gen_stamp_range(ss[0], c, k, n);
    } else {
        lemma_gen_stamp_range_seq(ss.subrange(1, ss.len() as int), c + stamps(ss[0]), k, n);
    }
}

/// The numeric value of one decimal digit character.
pub open spec fn digit_val(ch: char) -> nat {
    if ch == '0' {
        0
    } else if ch == '1' {
        1
    } else if ch == '2' {
        2
    } else if ch == '3' {
        3
    } else if ch == '4' {
        4
    } else if ch == '5' {
        5
    } else if ch == '6' {
        6
    } else if ch == '7' {
        7
    } else if ch == '8' {
        8
    } else {
        9
    }
}

/// The number a digit string denotes in base 10.
pub open spec fn dec_val(s: Seq<char>) -> nat
    decreases s.len(),
{
    if s.len() == 0 {
        0
    } else {
        dec_val(s.drop_last()) * 10 + digit_val(s.last())
    }
}

/// Reading the decimal rendering back gives the number: the rendering
/// is injective.
proof fn lemma_dec_roundtrip(n: nat)
    ensures
        dec_val(dec(n)) == n,
    decreases n,
{
    assert(dec_val(Seq::<char>::empty()) == 0);
    if n < 10 {
        assert(dec(n) == seq![digit_char(n)]);
        assert(dec(n).drop_last() =~= Seq::<char>::empty());
        assert(dec(n).last() == digit_char(n));
        assert(dec_val(dec(n)) == dec_val(dec(n).drop_last()) * 10 + digit_val(dec(n).last()));
        assert(digit_val(digit_char(n)) == n);
    } else {
        lemma_dec_roundtrip(n / 10);
        assert(dec(n) == dec(n / 10).push(digit_char(n % 10)));
        assert(dec(n).drop_last() =~= dec(n / 10));
        assert(dec(n).last() == digit_char(n % 10));
        assert(dec_val(dec(n)) == dec_val(dec(n).drop_last()) * 10 + digit_val(dec(n).last()));
        assert(n % 10 < 10) by {
            lemma_fundamental_div_mod(n as int, 10);
        }
        assert(digit_val(digit_char(n % 10)) == n % 10);
        lemma_fundamental_div_mod(n as int, 10);
        assert(dec_val(dec(n)) == (n / 10) * 10 + n % 10);
    }
}

/// Different numbers render to different decimal strings.
pub proof fn lemma_dec_injective(m: nat, n: nat)
    requires
        m != n,
    ensures
        dec(m) != dec(n),
{
    lemma_dec_roundtrip(m);
    lemma_dec_roundtrip(n);
}

/// Generated label names are injective in kind and stamp: two generated
/// labels render to the same text only when both the kind and the stamp
/// agree.
pub proof fn lemma_gen_label_text_injective(k1: GenKind, n1: u64, k2: GenKind, n2: u64)
    requires
        k1 != k2 || n1 != n2,
    ensures
        label_text(Lbl::Gen(k1, n1)) != label_text(Lbl::Gen(k2, n2)),
{
    let t1 = label_text(Lbl::Gen(k1, n1));
    let t2 = label_text(Lbl::Gen(k2, n2));
    if k1 != k2 {
        assert(t1[0] == kind_char(k1));
        assert(t2[0] == kind_char(k2));
        assert(kind_char(k1) != kind_char(k2));
    } else {
        lemma_dec_injective(n1 as nat, n2 as nat);
        if t1 == t2 {
            assert(t1.subrange(2, t1.len() as int) =~= dec(n1 as nat));
            assert(t2.subrange(2, t2.len() as int) =~= dec(n2 as nat));
            assert(t1.subrange(2, t1.len() as int) == t2.subrange(2, t2.len() as int));
            assert(false);
        }
    }
}

/// No collision between back-to-back constructs: a generated label minted
/// while lowering one statement and one minted while lowering the next
/// (which starts at the counter the first left behind) never share a
/// stamp, so their names differ even with no other work in between.
pub proof fn lemma_back_to_back_labels_distinct(
    s1: Stmt,
    s2: Stmt,
    c: nat,
    k1: GenKind,
    n1: u64,
    k2: GenKind,
    n2: u64,
)
    requires
        c + stamps(s1) + stamps(s2) <= u64::MAX,
        mentions_gen(lowered_stmt(s1, c), k1, n1),
        mentions_gen(lowered_stmt(s2, c + stamps(s1)), k2, n2),
    ensures
        n1 != n2,
        label_text(Lbl::Gen(k1, n1)) != label_text(Lbl::Gen(k2, n2)),
{
    lemma_gen_stamp_range(s1, c, k1, n1);
    lemma_gen_stamp_range(s2, c + stamps(s1), k2, n2);
    lemma_gen_label_text_injective(k1, n1, k2, n2);
}

/// No collision between a structured construct and the constructs nested
/// inside it: the construct's own labels carry its stamp `c`, while every
/// generated label of its lowered body carries a stamp from `c + 1` on,
/// so the names differ whatever their kinds.
pub proof fn lemma_nested_labels_distinct(block: Seq<Stmt>, c: nat, k: GenKind, n: u64)
    requires
        c + 1 + stamps_seq(block) <= u64::MAX,
        mentions_gen(lowered_seq(block, c + 1), k, n),
    ensures
        n != c,
        forall|k2: GenKind|
            #[trigger] label_text(Lbl::Gen(k2, c as u64)) != label_text(Lbl::Gen(k, n)),
{
    lemma_gen_stamp_range_seq(block, c + 1, k, n);
    assert forall|k2: GenKind| #[trigger] label_text(Lbl::Gen(k2, c as u64)) != label_text(
        Lbl::Gen(k, n),
    ) by {
        lemma_gen_label_text_injective(k2, c as u64, k, n);
    }
}

/// Rendering is deterministic: lowering and encoding are pure functions
/// of the program and the counter state, so re-rendering the same program
/// with the label counter reset yields byte-identical output.
pub proof fn lemma_rerender_identical(p: Seq<Stmt>, c: nat, out1: Seq<Seq<char>>, out2: Seq<
    Seq<char>,
>)
    requires
        out1 == program_text(p, c),
        out2 == program_text(p, c),
    ensures
        out1 == out2,
{
}

} // verus!
