//! Structured-control and calling-convention lowering: `While`, `If` and
//! `Loop` become label-and-branch sequences with generated label names
//! minted from a per-render monotonic counter; `Args`, `Call` and `Ret`
//! expand to the fixed stack-pointer protocol; leaf statements encode to
//! single lines.

use vstd::prelude::*;

use crate::ast::{Cmp, Cond, Stmt, ToNum};
use crate::encode::{
    pack_b, pack_u, GenKind, Lbl, Line, fix_b, fix_u, BUMP, HF, JMP, LOAD, SAVE,
};

verus! {

/// How many generated-label counter stamps lowering one statement takes:
/// one per structured construct, recursively.
pub open spec fn stamps(s: Stmt) -> nat
    decreases s,
{
    match s {
        Stmt::While { block, .. } => 1 + stamps_seq(block@),
        Stmt::If { yes, no, .. } => 1 + stamps_seq(no@) + stamps_seq(yes@),
        Stmt::Loop { block } => 1 + stamps_seq(block@),
        _ => 0,
    }
}

/// Counter stamps taken by lowering a statement sequence in order.
pub open spec fn stamps_seq(ss: Seq<Stmt>) -> nat
    decreases ss,
{
    if ss.len() == 0 {
        0
    } else {
        stamps(ss[0]) + stamps_seq(ss.subrange(1, ss.len() as int))
    }
}

/// The stack-bump line of the calling convention: raise the stack pointer
/// (register 5) by one.
pub open spec fn bump_line() -> Line {
    Line::Instr { op: BUMP, a: 5, b: 1, d: 5 }
}

/// Store register `r` to the cell addressed by the stack pointer.
pub open spec fn push_line(r: u8) -> Line {
    Line::Instr { op: SAVE, a: 5, b: r, d: 0 }
}

/// Load the cell addressed by the stack pointer into register `d`.
pub open spec fn pop_line(d: u8) -> Line {
    Line::Instr { op: LOAD, a: 5, b: 0, d }
}

/// Lower the stack pointer by one between restores.
pub open spec fn drop_line() -> Line {
    Line::Instr { op: JMP, a: 5, b: 1, d: 5 }
}

/// The eight lines of `Args`: for each of registers 1 to 4 in that
/// order, bump the stack pointer, then store the register.
pub open spec fn args_lines() -> Seq<Line> {
    seq![
        bump_line(),
        push_line(1),
        bump_line(),
        push_line(2),
        bump_line(),
        push_line(3),
        bump_line(),
        push_line(4),
    ]
}

/// The eleven lines of `Ret`: pop the return address into register 0,
/// restore registers 4, 3, 2, 1 in that exact reverse order of capture,
/// then jump through the return address.
pub open spec fn ret_lines() -> Seq<Line> {
    seq![
        pop_line(0),
        drop_line(),
        pop_line(4),
        drop_line(),
        pop_line(3),
        drop_line(),
        pop_line(2),
        drop_line(),
        pop_line(1),
        drop_line(),
        Line::Instr { op: JMP, a: 0, b: 0, d: 6 },
    ]
}

/// The three lines of `Call`: compute the resume address into register 0,
/// store it at the stack pointer, jump to the procedure's label.
pub open spec fn call_lines(name: String) -> Seq<Line> {
    seq![
        Line::Instr { op: JMP, a: 6, b: 8, d: 0 },
        Line::Instr { op: SAVE, a: 5, b: 0, d: 0 },
        Line::Jump { target: Lbl::Named(name) },
    ]
}

/// The unconditional branch: the always-true trick of comparing the
/// immediate 0 to itself for equality.
pub open spec fn uncond_line(target: Lbl) -> Line {
    Line::Br { op: Cmp::Eq.num(), a: 0, b: 0, target }
}

/// The flat line sequence that lowering one statement produces, given the
/// next free counter stamp `c`. Structured constructs mint their labels
/// from `c` and lower their bodies from `c + 1` on.
pub open spec fn lowered_stmt(s: Stmt, c: nat) -> Seq<Line>
    decreases s,
{
    match s {
        Stmt::Bin(op, l, r, d) => seq![
            Line::Instr { op: pack_b(op.num(), l, r), a: l.num(), b: r.num(), d: d.num() },
        ],
        Stmt::Un(op, x, d) => seq![
            Line::Instr { op: pack_u(op.num(), x), a: x.num(), b: 0, d: d.num() },
        ],
        Stmt::Hf(d) => seq![Line::Instr { op: HF, a: 0, b: 0, d: d.num() }],
        Stmt::Call(name) => call_lines(name),
        Stmt::Args => args_lines(),
        Stmt::Ret => ret_lines(),
        Stmt::Save { addr, val } => seq![
            Line::Instr { op: pack_b(SAVE, addr, val), a: addr.num(), b: val.num(), d: 0 },
        ],
        Stmt::Load { addr, reg } => seq![
            Line::Instr { op: pack_u(LOAD, addr), a: addr.num(), b: 0, d: reg.num() },
        ],
        Stmt::Label(name) => seq![Line::Label(Lbl::Named(name))],
        Stmt::Br { label, cond } => seq![
            Line::Br {
                op: pack_b(cond.cmp.num(), cond.lhs, cond.rhs),
                a: cond.lhs.num(),
                b: cond.rhs.num(),
                target: Lbl::Named(label),
            },
        ],
        Stmt::While { cond, block } => seq![
            Line::Label(Lbl::Gen(GenKind::Entry, c as u64)),
            Line::Br {
                op: pack_b(cond.cmp.spec_inv().num(), cond.lhs, cond.rhs),
                a: cond.lhs.num(),
                b: cond.rhs.num(),
                target: Lbl::Gen(GenKind::Exit, c as u64),
            },
        ] + lowered_seq(block@, c + 1) + seq![
            uncond_line(Lbl::Gen(GenKind::Entry, c as u64)),
            Line::Label(Lbl::Gen(GenKind::Exit, c as u64)),
        ],
        Stmt::If { cond, yes, no } => seq![
            Line::Br {
                op: pack_b(cond.cmp.num(), cond.lhs, cond.rhs),
                a: cond.lhs.num(),
                b: cond.rhs.num(),
                target: Lbl::Gen(GenKind::Then, c as u64),
            },
        ] + lowered_seq(no@, c + 1) + seq![
            uncond_line(Lbl::Gen(GenKind::Done, c as u64)),
            Line::Label(Lbl::Gen(GenKind::Then, c as u64)),
        ] + lowered_seq(yes@, c + 1 + stamps_seq(no@)) + seq![
            Line::Label(Lbl::Gen(GenKind::Done, c as u64)),
        ],
        Stmt::Loop { block } => seq![Line::Label(Lbl::Gen(GenKind::Entry, c as u64))]
            + lowered_seq(block@, c + 1) + seq![uncond_line(Lbl::Gen(GenKind::Entry, c as u64))],
    }
}

/// The lines of a statement sequence lowered in order, each statement
/// taking its stamps before the next begins.
pub open spec fn lowered_seq(ss: Seq<Stmt>, c: nat) -> Seq<Line>
    decreases ss,
{
    if ss.len() == 0 {
        Seq::empty()
    } else {
        lowered_stmt(ss[0], c) + lowered_seq(ss.subrange(1, ss.len() as int), c + stamps(ss[0]))
    }
}

/// Appending a statement lowers to appending its lines after the rest.
pub proof fn lemma_lowered_seq_snoc(ss: Seq<Stmt>, x: Stmt, c: nat)
    ensures
        stamps_seq(ss.push(x)) == stamps_seq(ss) + stamps(x),
        lowered_seq(ss.push(x), c) == lowered_seq(ss, c) + lowered_stmt(x, c + stamps_seq(ss)),
    decreases ss.len(),
{
    if ss.len() == 0 {
        assert(ss.push(x)[0] == x);
        assert(ss.push(x).subrange(1, ss.push(x).len() as int) =~= Seq::<Stmt>::empty());
        assert(stamps_seq(Seq::<Stmt>::empty()) == 0);
        assert(stamps_seq(ss.push(x)) == stamps(x));
        assert(lowered_seq(Seq::<Stmt>::empty(), c + stamps(x)) =~= Seq::<Line>::empty());
        assert(lowered_seq(ss.push(x), c) =~= lowered_stmt(x, c));
        assert(lowered_seq(ss, c) + lowered_stmt(x, c + stamps_seq(ss)) =~= lowered_stmt(x, c));
    } else {
        let tail = ss.subrange(1, ss.len() as int);
        lemma_lowered_seq_snoc(tail, x, c + stamps(ss[0]));
        assert(ss.push(x).subrange(1, ss.push(x).len() as int) =~= tail.push(x));
        assert(lowered_seq(ss.push(x), c) == lowered_stmt(ss[0], c) + lowered_seq(
            tail.push(x),
            c + stamps(ss[0]),
        ));
        assert(lowered_seq(ss.push(x), c) =~= lowered_seq(ss, c) + lowered_stmt(
            x,
            c + stamps_seq(ss),
        ));
    }
}

/// The generated-label counter: one per render, monotonically increasing,
/// so that no two constructs of the same render mint the same stamp.
pub struct LabelGen {
    pub counter: u64,
}

impl LabelGen {
    /// A fresh counter for one program render.
    pub fn new() -> (g: LabelGen)
        ensures
            g.counter == 0,
    {
        LabelGen { counter: 0 }
    }

    /// Take the next free stamp.
    fn fresh(&mut self) -> (n: u64)
        requires
            old(self).counter < u64::MAX,
        ensures
            n == old(self).counter,
            final(self).counter == old(self).counter + 1,
    {
        let n = self.counter;
        self.counter = self.counter + 1;
        n
    }
}

/// Emit the eight fixed capture lines of `Args`.
fn lower_args(out: &mut Vec<Line>)
    ensures
        final(out)@ == old(out)@ + args_lines(),
{
    let mut r: u8 = 1;
    while r <= 4
        invariant
            1 <= r <= 5,
            out@ == old(out)@ + args_lines().subrange(0, 2 * (r - 1)),
        decreases 5 - r,
    {
        out.push(Line::Instr { op: BUMP, a: 5, b: 1, d: 5 });
        out.push(Line::Instr { op: SAVE, a: 5, b: r, d: 0 });
        proof {
            assert(out@ =~= old(out)@ + args_lines().subrange(0, 2 * (r as int)));
        }
        r = r + 1;
    }
    proof {
        assert(args_lines().subrange(0, 8) =~= args_lines());
    }
}

/// Emit the eleven fixed restore lines of `Ret`.
fn lower_ret(out: &mut Vec<Line>)
    ensures
        final(out)@ == old(out)@ + ret_lines(),
{
    let mut r: u8 = 0;
    while r <= 4
        invariant
            r <= 5,
            out@ == old(out)@ + ret_lines().subrange(0, 2 * r),
        decreases 5 - r,
    {
        let dst: u8 = if r == 0 { 0 } else { 5 - r };
        out.push(Line::Instr { op: LOAD, a: 5, b: 0, d: dst });
        out.push(Line::Instr { op: JMP, a: 5, b: 1, d: 5 });
        proof {
            assert(out@ =~= old(out)@ + ret_lines().subrange(0, 2 * (r as int + 1)));
        }
        r = r + 1;
    }
    out.push(Line::Instr { op: JMP, a: 0, b: 0, d: 6 });
    proof {
        assert(out@ =~= old(out)@ + ret_lines());
    }
}

/// Lower one `While`: entry label, inverted guard branch to the exit
/// label, the body, an unconditional back-branch, the exit label.
fn lower_while(
    cond: &Cond,
    block: &Vec<Stmt>,
    g: &mut LabelGen,
    out: &mut Vec<Line>,
    Ghost(s): Ghost<Stmt>,
)
    requires
        s == (Stmt::While { cond: *cond, block: *block }),
        old(g).counter + stamps(s) <= u64::MAX,
    ensures
        final(out)@ == old(out)@ + lowered_stmt(s, old(g).counter as nat),
        final(g).counter == old(g).counter + stamps(s),
    decreases s, 0int,
{
    let n = g.fresh();
    out.push(Line::Label(Lbl::Gen(GenKind::Entry, n)));
    let guard = fix_b(&cond.cmp.inv(), &cond.lhs, &cond.rhs);
    out.push(
        Line::Br {
            op: guard,
            a: cond.lhs.to_num(),
            b: cond.rhs.to_num(),
            target: Lbl::Gen(GenKind::Exit, n),
        },
    );
    lower_block(block, g, out);
    out.push(Line::Br { op: Cmp::Eq.to_num(), a: 0, b: 0, target: Lbl::Gen(GenKind::Entry, n) });
    out.push(Line::Label(Lbl::Gen(GenKind::Exit, n)));
    proof {
        assert(out@ =~= old(out)@ + lowered_stmt(s, old(g).counter as nat));
    }
}

/// Lower one `If`: branch on the condition to the then-label, the else
/// block, a skip-jump to the done-label, the then-label and block, the
/// done-label.
fn lower_if(
    cond: &Cond,
    yes: &Vec<Stmt>,
    no: &Vec<Stmt>,
    g: &mut LabelGen,
    out: &mut Vec<Line>,
    Ghost(s): Ghost<Stmt>,
)
    requires
        s == (Stmt::If { cond: *cond, yes: *yes, no: *no }),
        old(g).counter + stamps(s) <= u64::MAX,
    ensures
        final(out)@ == old(out)@ + lowered_stmt(s, old(g).counter as nat),
        final(g).counter == old(g).counter + stamps(s),
    decreases s, 0int,
{
    let n = g.fresh();
    let op = fix_b(&cond.cmp, &cond.lhs, &cond.rhs);
    out.push(
        Line::Br {
            op,
            a: cond.lhs.to_num(),
            b: cond.rhs.to_num(),
            target: Lbl::Gen(GenKind::Then, n),
        },
    );
    lower_block(no, g, out);
    out.push(Line::Br { op: Cmp::Eq.to_num(), a: 0, b: 0, target: Lbl::Gen(GenKind::Done, n) });
    out.push(Line::Label(Lbl::Gen(GenKind::Then, n)));
    lower_block(yes, g, out);
    out.push(Line::Label(Lbl::Gen(GenKind::Done, n)));
    proof {
        assert(out@ =~= old(out)@ + lowered_stmt(s, old(g).counter as nat));
    }
}

/// Lower one `Loop`: entry label, the body, an unconditional back-branch.
fn lower_loop(block: &Vec<Stmt>, g: &mut LabelGen, out: &mut Vec<Line>, Ghost(s): Ghost<Stmt>)
    requires
        s == (Stmt::Loop { block: *block }),
        old(g).counter + stamps(s) <= u64::MAX,
    ensures
        final(out)@ == old(out)@ + lowered_stmt(s, old(g).counter as nat),
        final(g).counter == old(g).counter + stamps(s),
    decreases s, 0int,
{
    let n = g.fresh();
    out.push(Line::Label(Lbl::Gen(GenKind::Entry, n)));
    lower_block(block, g, out);
    out.push(Line::Br { op: Cmp::Eq.to_num(), a: 0, b: 0, target: Lbl::Gen(GenKind::Entry, n) });
    proof {
        assert(out@ =~= old(out)@ + lowered_stmt(s, old(g).counter as nat));
    }
}

/// Lower one statement, appending its lines to `out` and advancing the
/// label counter by exactly the stamps the statement takes.
pub fn lower_stmt(s: &Stmt, g: &mut LabelGen, out: &mut Vec<Line>)
    requires
        old(g).counter + stamps(*s) <= u64::MAX,
    ensures
        final(out)@ == old(out)@ + lowered_stmt(*s, old(g).counter as nat),
        final(g).counter == old(g).counter + stamps(*s),
    decreases *s, 1int,
{
    match s {
        Stmt::Bin(op, l, r, d) => {
            let line = Line::Instr { op: fix_b(op, l, r), a: l.to_num(), b: r.to_num(), d: d.to_num() };
            out.push(line);
            proof {
                assert(out@ =~= old(out)@ + lowered_stmt(*s, old(g).counter as nat));
            }
        },
        Stmt::Un(op, x, d) => {
            let line = Line::Instr { op: fix_u(op, x), a: x.to_num(), b: 0, d: d.to_num() };
            out.push(line);
            proof {
                assert(out@ =~= old(out)@ + lowered_stmt(*s, old(g).counter as nat));
            }
        },
        Stmt::Hf(d) => {
            out.push(Line::Instr { op: HF, a: 0, b: 0, d: d.to_num() });
            proof {
                assert(out@ =~= old(out)@ + lowered_stmt(*s, old(g).counter as nat));
            }
        },
        Stmt::Call(name) => {
            out.push(Line::Instr { op: JMP, a: 6, b: 8, d: 0 });
            out.push(Line::Instr { op: SAVE, a: 5, b: 0, d: 0 });
            out.push(Line::Jump { target: Lbl::Named(name.clone()) });
            proof {
                assert(out@ =~= old(out)@ + lowered_stmt(*s, old(g).counter as nat));
            }
        },
        Stmt::Args => {
            lower_args(out);
            proof {
                assert(out@ =~= old(out)@ + lowered_stmt(*s, old(g).counter as nat));
            }
        },
        Stmt::Ret => {
            lower_ret(out);
            proof {
                assert(out@ =~= old(out)@ + lowered_stmt(*s, old(g).counter as nat));
            }
        },
        Stmt::Save { addr, val } => {
            let op = fix_b(&SAVE, addr, val);
            out.push(Line::Instr { op, a: addr.to_num(), b: val.to_num(), d: 0 });
            proof {
                assert(out@ =~= old(out)@ + lowered_stmt(*s, old(g).counter as nat));
            }
        },
        Stmt::Load { addr, reg } => {
            let op = fix_u(&LOAD, addr);
            out.push(Line::Instr { op, a: addr.to_num(), b: 0, d: reg.to_num() });
            proof {
                assert(out@ =~= old(out)@ + lowered_stmt(*s, old(g).counter as nat));
            }
        },
        Stmt::Label(name) => {
            out.push(Line::Label(Lbl::Named(name.clone())));
            proof {
                assert(out@ =~= old(out)@ + lowered_stmt(*s, old(g).counter as nat));
            }
        },
        Stmt::Br { label, cond } => {
            let op = fix_b(&cond.cmp, &cond.lhs, &cond.rhs);
            out.push(
                Line::Br {
                    op,
                    a: cond.lhs.to_num(),
                    b: cond.rhs.to_num(),
                    target: Lbl::Named(label.clone()),
                },
            );
            proof {
                assert(out@ =~= old(out)@ + lowered_stmt(*s, old(g).counter as nat));
            }
        },
        Stmt::While { cond, block } => {
            lower_while(cond, block, g, out, Ghost(*s));
        },
        Stmt::If { cond, yes, no } => {
            lower_if(cond, yes, no, g, out, Ghost(*s));
        },
        Stmt::Loop { block } => {
            lower_loop(block, g, out, Ghost(*s));
        },
    }
}

/// Lower a statement sequence in order, appending every line to `out`.
pub fn lower_block(ss: &Vec<Stmt>, g: &mut LabelGen, out: &mut Vec<Line>)
    requires
        old(g).counter + stamps_seq(ss@) <= u64::MAX,
    ensures
        final(out)@ == old(out)@ + lowered_seq(ss@, old(g).counter as nat),
        final(g).counter == old(g).counter + stamps_seq(ss@),
    decreases ss@, 0int,
{
    let ghost c0 = old(g).counter as nat;
    let ghost out0 = out@;
    let mut i: usize = 0;
    proof {
        assert(ss@.subrange(0, 0) =~= Seq::<Stmt>::empty());
        assert(ss@.subrange(0, ss@.len() as int) =~= ss@);
        lemma_stamps_seq_split_all(ss@);
    }
    while i < ss.len()
        invariant
            i <= ss@.len(),
            c0 + stamps_seq(ss@) <= u64::MAX,
            g.counter == c0 + stamps_seq(ss@.subrange(0, i as int)),
            out@ == out0 + lowered_seq(ss@.subrange(0, i as int), c0),
            forall|j: int|
                0 <= j <= ss@.len() ==> stamps_seq(#[trigger] ss@.subrange(0, j)) <= stamps_seq(
                    ss@,
                ),
            forall|j: int|
                0 <= j < ss@.len() ==> stamps_seq(#[trigger] ss@.subrange(0, j)) + stamps(ss@[j])
                    <= stamps_seq(ss@),
        decreases ss@.len() - i,
    {
        proof {
            assert(stamps_seq(ss@.subrange(0, i as int)) + stamps(ss@[i as int]) <= stamps_seq(
                ss@,
            ));
        }
        lower_stmt(&ss[i], g, out);
        proof {
            lemma_lowered_seq_snoc(ss@.subrange(0, i as int), ss@[i as int], c0);
            assert(ss@.subrange(0, i as int).push(ss@[i as int]) =~= ss@.subrange(0, i + 1));
        }
        i = i + 1;
    }
    proof {
        assert(ss@.subrange(0, ss@.len() as int) =~= ss@);
    }
}

/// Every prefix of a sequence takes no more stamps than the whole, and a
/// prefix together with the next statement still fits.
proof fn lemma_stamps_seq_split_all(ss: Seq<Stmt>)
    ensures
        forall|j: int|
            0 <= j <= ss.len() ==> stamps_seq(#[trigger] ss.subrange(0, j)) <= stamps_seq(ss),
        forall|j: int|
            0 <= j < ss.len() ==> stamps_seq(#[trigger] ss.subrange(0, j)) + stamps(ss[j])
                <= stamps_seq(ss),
    decreases ss.len(),
{
    assert forall|j: int| 0 <= j <= ss.len() implies stamps_seq(#[trigger] ss.subrange(0, j))
        <= stamps_seq(ss) by {
        lemma_stamps_prefix(ss, j);
    }
    assert forall|j: int| 0 <= j < ss.len() implies stamps_seq(#[trigger] ss.subrange(0, j))
        + stamps(ss[j]) <= stamps_seq(ss) by {
        lemma_stamps_prefix(ss, j + 1);
        lemma_lowered_seq_snoc(ss.subrange(0, j), ss[j], 0);
        assert(ss.subrange(0, j).push(ss[j]) =~= ss.subrange(0, j + 1));
    }
}

/// A prefix takes no more stamps than the whole sequence.
proof fn lemma_stamps_prefix(ss: Seq<Stmt>, j: int)
    requires
        0 <= j <= ss.len(),
    ensures
        stamps_seq(ss.subrange(0, j)) <= stamps_seq(ss),
    decreases ss.len(),
{
    if j == 0 {
        assert(ss.subrange(0, 0) =~= Seq::<Stmt>::empty());
    } else {
        let tail = ss.subrange(1, ss.len() as int);
        lemma_stamps_prefix(tail, j - 1);
        assert(ss.subrange(0, j).subrange(1, j) =~= tail.subrange(0, j - 1));
        assert(ss.subrange(0, j)[0] == ss[0]);
        assert(stamps_seq(ss.subrange(0, j)) == stamps(ss[0]) + stamps_seq(
            tail.subrange(0, j - 1),
        ));
    }
}

/// Lower a whole program from a fresh counter.
pub fn lower_program(prog: &Vec<Stmt>) -> (r: Vec<Line>)
    requires
        stamps_seq(prog@) <= u64::MAX,
    ensures
        r@ == lowered_seq(prog@, 0),
{
    let mut g = LabelGen::new();
    let mut out: Vec<Line> = Vec::new();
    lower_block(prog, &mut g, &mut out);
    proof {
        assert(out@ =~= lowered_seq(prog@, 0));
    }
    out
}

} // verus!
