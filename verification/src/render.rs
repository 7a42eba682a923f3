//! Whole-program rendering: the statements lowered in order with one
//! fresh-label counter per render, then each line encoded as text.

use vstd::prelude::*;

use crate::ast::Stmt;
use crate::encode::{line_text, render_lines, Line};
use crate::lower::{lower_program, lowered_seq, stamps_seq};

verus! {

/// The text of one whole render: the program lowered from next free
/// stamp `c`, each line rendered.
pub open spec fn program_text(p: Seq<Stmt>, c: nat) -> Seq<Seq<char>> {
    lowered_seq(p, c).map_values(|l: Line| line_text(l))
}

/// Render a whole program as text: statements lowered in order with one
/// fresh-label counter for the render, each line encoded as text.
pub fn render_program(prog: &Vec<Stmt>) -> (r: Vec<String>)
    requires
        stamps_seq(prog@) <= u64::MAX,
    ensures
        r@.len() == lowered_seq(prog@, 0).len(),
        forall|i: int| 0 <= i < r@.len() ==> r@[i]@ == line_text(lowered_seq(prog@, 0)[i]),
        r@.map_values(|s: String| s@) == program_text(prog@, 0),
{
    let lines = lower_program(prog);
    let r = render_lines(&lines);
    proof {
        assert(r@.map_values(|s: String| s@) =~= program_text(prog@, 0));
    }
    r
}

} // verus!
