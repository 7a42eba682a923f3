//! The in-memory model of a parsed program: registers, operand values,
//! operators, comparisons, conditions and statements, together with their
//! numeric encodings.

use vstd::prelude::*;

verus! {

/// A symbolic machine register. Nine names map onto eight 3-bit hardware
/// indices: `I` and `O` alias to index 7, because the machine tells input
/// from output use by context, not by encoding.
#[derive(Clone, Copy, Debug, PartialEq, Eq, Structural)]
pub enum Reg {
    R0,
    R1,
    R2,
    R3,
    R4,
    R5,
    P,
    I,
    O,
}

/// An operand: either a register reference or an 8-bit immediate.
#[derive(Clone, Copy, Debug, PartialEq, Eq, Structural)]
pub enum Val {
    Reg(Reg),
    Im(u8),
}

/// A binary arithmetic/logic operator.
#[derive(Clone, Copy, Debug, PartialEq, Eq, Structural)]
pub enum Bop {
    Add,
    Sub,
    And,
    Or,
    Xor,
    Shl,
    Shr,
    Rol,
    Ror,
    Ashr,
    Mul,
    Div,
}

/// A unary operator.
#[derive(Clone, Copy, Debug, PartialEq, Eq, Structural)]
pub enum Uop {
    Not,
}

/// A comparison, used only as the predicate of a branch.
#[derive(Clone, Copy, Debug, PartialEq, Eq, Structural)]
pub enum Cmp {
    Eq,
    Neq,
    Lt,
    Leq,
    Gt,
    Geq,
}

/// The predicate of a branch or of a structured control construct.
#[derive(Clone, Copy, Debug, PartialEq, Eq, Structural)]
pub struct Cond {
    pub lhs: Val,
    pub rhs: Val,
    pub cmp: Cmp,
}

/// A program statement: leaf forms render directly to instructions,
/// structured forms (`While`, `If`, `Loop`) hold nested statement
/// sequences and are lowered to labels and branches first.
pub enum Stmt {
    Bin(Bop, Val, Val, Reg),
    Un(Uop, Val, Reg),
    Hf(Reg),
    Call(String),
    Args,
    Ret,
    Save { addr: Val, val: Val },
    Load { addr: Val, reg: Reg },
    Label(String),
    Br { label: String, cond: Cond },
    While { cond: Cond, block: Vec<Stmt> },
    If { cond: Cond, yes: Vec<Stmt>, no: Vec<Stmt> },
    Loop { block: Vec<Stmt> },
}

/// Anything with a fixed numeric encoding in the instruction format.
pub trait ToNum: Sized {
    /// The numeric encoding, at the specification level.
    spec fn num(self) -> u8;

    /// The numeric encoding; agrees with `num`.
    fn to_num(self) -> (n: u8)
        ensures
            n == self.num(),
    ;
}

impl ToNum for u8 {
    open spec fn num(self) -> u8 {
        self
    }

    fn to_num(self) -> (n: u8) {
        self
    }
}

impl ToNum for Reg {
    open spec fn num(self) -> u8 {
        match self {
            Reg::R0 => 0,
            Reg::R1 => 1,
            Reg::R2 => 2,
            Reg::R3 => 3,
            Reg::R4 => 4,
            Reg::R5 => 5,
            Reg::P => 6,
            Reg::I => 7,
            Reg::O => 7,
        }
    }

    fn to_num(self) -> (n: u8) {
        match self {
            Reg::R0 => 0,
            Reg::R1 => 1,
            Reg::R2 => 2,
            Reg::R3 => 3,
            Reg::R4 => 4,
            Reg::R5 => 5,
            Reg::P => 6,
            Reg::I => 7,
            Reg::O => 7,
        }
    }
}

impl ToNum for Bop {
    open spec fn num(self) -> u8 {
        match self {
            Bop::Add => 0,
            Bop::Sub => 1,
            Bop::And => 2,
            Bop::Or => 3,
            Bop::Xor => 5,
            Bop::Shl => 8,
            Bop::Shr => 9,
            Bop::Rol => 10,
            Bop::Ror => 11,
            Bop::Ashr => 12,
            Bop::Mul => 13,
            Bop::Div => 14,
        }
    }

    fn to_num(self) -> (n: u8) {
        match self {
            Bop::Add => 0,
            Bop::Sub => 1,
            Bop::And => 2,
            Bop::Or => 3,
            Bop::Xor => 5,
            Bop::Shl => 8,
            Bop::Shr => 9,
            Bop::Rol => 10,
            Bop::Ror => 11,
            Bop::Ashr => 12,
            Bop::Mul => 13,
            Bop::Div => 14,
        }
    }
}

impl ToNum for Uop {
    open spec fn num(self) -> u8 {
        match self {
            Uop::Not => 4,
        }
    }

    fn to_num(self) -> (n: u8) {
        match self {
            Uop::Not => 4,
        }
    }
}

impl ToNum for Val {
    /// A register operand encodes as its hardware index, an immediate as
    /// its own byte value.
    open spec fn num(self) -> u8 {
        match self {
            Val::Reg(reg) => reg.num(),
            Val::Im(x) => x,
        }
    }

    fn to_num(self) -> (n: u8) {
        match self {
            Val::Reg(reg) => reg.to_num(),
            Val::Im(x) => x,
        }
    }
}

impl ToNum for Cmp {
    open spec fn num(self) -> u8 {
        match self {
            Cmp::Eq => 16,
            Cmp::Neq => 17,
            Cmp::Lt => 18,
            Cmp::Leq => 19,
            Cmp::Gt => 20,
            Cmp::Geq => 21,
        }
    }

    fn to_num(self) -> (n: u8) {
        match self {
            Cmp::Eq => 16,
            Cmp::Neq => 17,
            Cmp::Lt => 18,
            Cmp::Leq => 19,
            Cmp::Gt => 20,
            Cmp::Geq => 21,
        }
    }
}

impl Cmp {
    /// The logical inverse of a comparison, at the specification level.
    pub open spec fn spec_inv(self) -> Cmp {
        match self {
            Cmp::Eq => Cmp::Neq,
            Cmp::Neq => Cmp::Eq,
            Cmp::Lt => Cmp::Geq,
            Cmp::Leq => Cmp::Gt,
            Cmp::Gt => Cmp::Leq,
            Cmp::Geq => Cmp::Lt,
        }
    }

    /// The logical inverse, used by `while`/`if` lowering to invert a
    /// branch test.
    pub fn inv(self) -> (r: Self)
        ensures
            r == self.spec_inv(),
    {
        match self {
            Cmp::Eq => Cmp::Neq,
            Cmp::Neq => Cmp::Eq,
            Cmp::Lt => Cmp::Geq,
            Cmp::Leq => Cmp::Gt,
            Cmp::Gt => Cmp::Leq,
            Cmp::Geq => Cmp::Lt,
        }
    }
}

impl Val {
    /// Whether this operand is a register reference.
    pub open spec fn spec_is_reg(self) -> bool {
        self is Reg
    }

    /// Whether this operand is an immediate.
    pub open spec fn spec_is_im(self) -> bool {
        self is Im
    }

    pub fn is_reg(&self) -> (r: bool)
        ensures
            r == self.spec_is_reg(),
    {
        matches!(self, Val::Reg(..))
    }

    pub fn is_im(&self) -> (r: bool)
        ensures
            r == self.spec_is_im(),
    {
        matches!(self, Val::Im(..))
    }
}

} // verus!
