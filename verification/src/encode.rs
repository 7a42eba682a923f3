//! Leaf-instruction encoding: opcode byte packing with immediate-operand
//! flags, the flat line form that lowering produces, and the rendering of
//! one line into its textual numeric form.

use vstd::prelude::*;

use crate::ast::{Cmp, ToNum, Val};

verus! {

/// Memory-load opcode.
pub const LOAD: u8 = 6;

/// Memory-store opcode.
pub const SAVE: u8 = 7;

/// High-bits-fetch opcode.
pub const HF: u8 = 15;

/// Unconditional-jump/move primitive, used by procedure lowering.
pub const JMP: u8 = 64;

/// Stack-bump primitive, used by procedure lowering.
pub const BUMP: u8 = 65;

/// Opcode packing for a two-operand instruction: the base opcode plus 128
/// if the left operand is an immediate and 64 if the right operand is.
pub open spec fn pack_b(base: u8, l: Val, r: Val) -> u8 {
    (base + (if l.spec_is_im() { 128int } else { 0int }) + (if r.spec_is_im() {
        64int
    } else {
        0int
    })) as u8
}

/// Opcode packing for a one-operand instruction: the base opcode plus 128
/// if the operand is an immediate.
pub open spec fn pack_u(base: u8, x: Val) -> u8 {
    (base + (if x.spec_is_im() { 128int } else { 0int })) as u8
}

/// Pack a one-operand opcode byte. The base must leave room for the
/// immediate flag, so that the sum stays one byte.
pub fn fix_u<T: ToNum + Copy>(op: &T, x: &Val) -> (n: u8)
    requires
        op.num() <= 127,
    ensures
        n == pack_u(op.num(), *x),
        n == op.num() + if x.spec_is_im() { 128int } else { 0int },
{
    op.to_num() + if x.is_im() { 128 } else { 0 }
}

/// Pack a two-operand opcode byte. The base must leave room for both
/// immediate flags, so that the sum stays one byte.
pub fn fix_b<T: ToNum + Copy>(op: &T, l: &Val, r: &Val) -> (n: u8)
    requires
        op.num() <= 63,
    ensures
        n == pack_b(op.num(), *l, *r),
        n == op.num() + (if l.spec_is_im() { 128int } else { 0int }) + (if r.spec_is_im() {
            64int
        } else {
            0int
        }),
{
    op.to_num() + (if l.is_im() { 128 } else { 0 }) + (if r.is_im() { 64 } else { 0 })
}

/// Which generated-label family a label belongs to: loop entries, loop
/// exits, then-targets and done-targets.
#[derive(Clone, Copy, PartialEq, Eq, Structural)]
pub enum GenKind {
    Entry,
    Exit,
    Then,
    Done,
}

/// A branch target or label name: either a user-written name carried
/// through from the source program, or a generated name minted from a
/// kind and a per-render counter stamp.
pub enum Lbl {
    Named(String),
    Gen(GenKind, u64),
}

/// One line of lowered output, before text rendering: a label
/// pseudo-instruction, a plain numeric instruction, a conditional branch
/// whose destination slot holds a label, or the procedure-call jump whose
/// first operand slot holds a label.
pub enum Line {
    Label(Lbl),
    Instr { op: u8, a: u8, b: u8, d: u8 },
    Br { op: u8, a: u8, b: u8, target: Lbl },
    Jump { target: Lbl },
}

/// The character for one decimal digit.
pub open spec fn digit_char(d: nat) -> char {
    if d == 0 {
        '0'
    } else if d == 1 {
        '1'
    } else if d == 2 {
        '2'
    } else if d == 3 {
        '3'
    } else if d == 4 {
        '4'
    } else if d == 5 {
        '5'
    } else if d == 6 {
        '6'
    } else if d == 7 {
        '7'
    } else if d == 8 {
        '8'
    } else {
        '9'
    }
}

/// The base-10 rendering of a number, without sign or padding.
pub open spec fn dec(n: nat) -> Seq<char>
    decreases n,
{
    if n < 10 {
        seq![digit_char(n)]
    } else {
        dec(n / 10).push(digit_char(n % 10))
    }
}

/// The character that opens a generated label of the given kind.
pub open spec fn kind_char(k: GenKind) -> char {
    match k {
        GenKind::Entry => 'L',
        GenKind::Exit => 'E',
        GenKind::Then => 'T',
        GenKind::Done => 'D',
    }
}

/// The text of a label: a user name stands as written; a generated name
/// is its kind character, an underscore, and the decimal counter stamp.
pub open spec fn label_text(l: Lbl) -> Seq<char> {
    match l {
        Lbl::Named(s) => s@,
        Lbl::Gen(k, n) => seq![kind_char(k), '_'] + dec(n as nat),
    }
}

/// The text `label ` that opens a label pseudo-instruction.
pub open spec fn label_kw() -> Seq<char> {
    seq!['l', 'a', 'b', 'e', 'l', ' ']
}

/// The text of one rendered line: four whitespace-separated fields for an
/// instruction, with the destination (or, for the call jump, the first
/// operand) replaced by a label name on branches, and `label NAME` for a
/// label pseudo-instruction.
pub open spec fn line_text(l: Line) -> Seq<char> {
    match l {
        Line::Label(lbl) => label_kw() + label_text(lbl),
        Line::Instr { op, a, b, d } => dec(op as nat) + seq![' '] + dec(a as nat) + seq![' ']
            + dec(b as nat) + seq![' '] + dec(d as nat),
        Line::Br { op, a, b, target } => dec(op as nat) + seq![' '] + dec(a as nat) + seq![' ']
            + dec(b as nat) + seq![' '] + label_text(target),
        Line::Jump { target } => dec(JMP as nat) + seq![' '] + label_text(target) + seq![' ']
            + dec(0) + seq![' '] + dec(6),
    }
}

/// The single character of one decimal digit, as a string.
fn digit_str(d: u64) -> (r: String)
    requires
        d < 10,
    ensures
        r@ == seq![digit_char(d as nat)],
{
    let r = if d == 0 {
        String::from_str("0")
    } else if d == 1 {
        String::from_str("1")
    } else if d == 2 {
        String::from_str("2")
    } else if d == 3 {
        String::from_str("3")
    } else if d == 4 {
        String::from_str("4")
    } else if d == 5 {
        String::from_str("5")
    } else if d == 6 {
        String::from_str("6")
    } else if d == 7 {
        String::from_str("7")
    } else if d == 8 {
        String::from_str("8")
    } else {
        String::from_str("9")
    };
    proof {
        reveal_strlit("0");
        reveal_strlit("1");
        reveal_strlit("2");
        reveal_strlit("3");
        reveal_strlit("4");
        reveal_strlit("5");
        reveal_strlit("6");
        reveal_strlit("7");
        reveal_strlit("8");
        reveal_strlit("9");
        assert(r@ =~= seq![digit_char(d as nat)]);
    }
    r
}

/// Render a number in base 10.
pub fn dec_str(n: u64) -> (r: String)
    ensures
        r@ == dec(n as nat),
    decreases n,
{
    if n < 10 {
        digit_str(n)
    } else {
        let high = dec_str(n / 10);
        let low = digit_str(n % 10);
        let r = high.concat(low.as_str());
        proof {
            assert(r@ =~= dec(n as nat));
        }
        r
    }
}

/// Render a label name: a user name as written, a generated name as its
/// kind character, an underscore and the decimal stamp.
pub fn render_label(l: &Lbl) -> (r: String)
    ensures
        r@ == label_text(*l),
{
    match l {
        Lbl::Named(s) => {
            let r = s.clone();
            proof {
                assert(r@ =~= label_text(*l));
            }
            r
        },
        Lbl::Gen(k, n) => {
            let head = match k {
                GenKind::Entry => String::from_str("L_"),
                GenKind::Exit => String::from_str("E_"),
                GenKind::Then => String::from_str("T_"),
                GenKind::Done => String::from_str("D_"),
            };
            proof {
                reveal_strlit("L_");
                reveal_strlit("E_");
                reveal_strlit("T_");
                reveal_strlit("D_");
            }
            let r = head.concat(dec_str(*n).as_str());
            proof {
                assert(r@ =~= label_text(*l));
            }
            r
        },
    }
}

/// Render one line of output text.
pub fn render_line(l: &Line) -> (r: String)
    ensures
        r@ == line_text(*l),
{
    proof {
        reveal_strlit("label ");
        reveal_strlit(" ");
    }
    match l {
        Line::Label(lbl) => {
            let r = String::from_str("label ").concat(render_label(lbl).as_str());
            proof {
                assert(r@ =~= line_text(*l));
            }
            r
        },
        Line::Instr { op, a, b, d } => {
            let mut r = dec_str(*op as u64);
            r.append(" ");
            r.append(dec_str(*a as u64).as_str());
            r.append(" ");
            r.append(dec_str(*b as u64).as_str());
            r.append(" ");
            r.append(dec_str(*d as u64).as_str());
            proof {
                assert(r@ =~= line_text(*l));
            }
            r
        },
        Line::Br { op, a, b, target } => {
            let mut r = dec_str(*op as u64);
            r.append(" ");
            r.append(dec_str(*a as u64).as_str());
            r.append(" ");
            r.append(dec_str(*b as u64).as_str());
            r.append(" ");
            r.append(render_label(target).as_str());
            proof {
                assert(r@ =~= line_text(*l));
            }
            r
        },
        Line::Jump { target } => {
            let mut r = dec_str(JMP as u64);
            // the call jump carries its label in the first operand slot
            r.append(" ");
            r.append(render_label(target).as_str());
            r.append(" 0 6");
            proof {
                reveal_strlit(" 0 6");
                assert(r@ =~= line_text(*l));
            }
            r
        },
    }
}

/// Render each line of a lowered program as text, in order.
pub fn render_lines(ls: &Vec<Line>) -> (r: Vec<String>)
    ensures
        r@.len() == ls@.len(),
        forall|i: int| 0 <= i < ls@.len() ==> r@[i]@ == line_text(ls@[i]),
{
    let mut r: Vec<String> = Vec::new();
    let mut i: usize = 0;
    while i < ls.len()
        invariant
            i <= ls@.len(),
            r@.len() == i,
            forall|j: int| 0 <= j < i ==> r@[j]@ == line_text(ls@[j]),
        decreases ls@.len() - i,
    {
        r.push(render_line(&ls[i]));
        i = i + 1;
    }
    r
}

} // verus!
