use asm_leg::ast::{Bop, Cmp, Cond, Reg, Stmt, Uop, Val};
use asm_leg::encode::dec_str;
use asm_leg::lower::{lower_block, LabelGen};
use asm_leg::render::render_program;

fn cond(lhs: Val, cmp: Cmp, rhs: Val) -> Cond {
    Cond { lhs, rhs, cmp }
}

fn lines(prog: &Vec<Stmt>) -> Vec<String> {
    render_program(prog)
}

#[test]
fn bin_opcode_no_immediates() {
    let prog = vec![Stmt::Bin(Bop::Sub, Val::Reg(Reg::R3), Val::Reg(Reg::R4), Reg::R5)];
    assert_eq!(lines(&prog), vec!["1 3 4 5"]);
}

#[test]
fn bin_opcode_left_immediate() {
    let prog = vec![Stmt::Bin(Bop::Add, Val::Im(2), Val::Reg(Reg::R1), Reg::R2)];
    assert_eq!(lines(&prog), vec!["128 2 1 2"]);
}

#[test]
fn bin_opcode_right_immediate() {
    let prog = vec![Stmt::Bin(Bop::Div, Val::Reg(Reg::R0), Val::Im(2), Reg::R1)];
    assert_eq!(lines(&prog), vec!["78 0 2 1"]);
}

#[test]
fn bin_opcode_both_immediate() {
    let prog = vec![Stmt::Bin(Bop::Mul, Val::Im(3), Val::Im(4), Reg::R0)];
    assert_eq!(lines(&prog), vec!["205 3 4 0"]);
}

#[test]
fn un_opcode_flags() {
    let prog = vec![
        Stmt::Un(Uop::Not, Val::Im(7), Reg::R2),
        Stmt::Un(Uop::Not, Val::Reg(Reg::R1), Reg::R0),
    ];
    assert_eq!(lines(&prog), vec!["132 7 0 2", "4 1 0 0"]);
}

#[test]
fn save_and_load_flags() {
    let prog = vec![
        Stmt::Save { addr: Val::Im(100), val: Val::Reg(Reg::R2) },
        Stmt::Save { addr: Val::Reg(Reg::R5), val: Val::Im(9) },
        Stmt::Load { addr: Val::Im(100), reg: Reg::R3 },
        Stmt::Load { addr: Val::Reg(Reg::R5), reg: Reg::R1 },
    ];
    assert_eq!(lines(&prog), vec!["135 100 2 0", "71 5 9 0", "134 100 0 3", "6 5 0 1"]);
}

#[test]
fn hf_line() {
    let prog = vec![Stmt::Hf(Reg::R2)];
    assert_eq!(lines(&prog), vec!["15 0 0 2"]);
}

#[test]
fn user_label_and_branch() {
    let prog = vec![
        Stmt::Label(String::from("top")),
        Stmt::Br {
            label: String::from("top"),
            cond: cond(Val::Im(1), Cmp::Neq, Val::Im(2)),
        },
    ];
    assert_eq!(lines(&prog), vec!["label top", "209 1 2 top"]);
}

#[test]
fn call_lines() {
    let prog = vec![Stmt::Call(String::from("f"))];
    assert_eq!(lines(&prog), vec!["64 6 8 0", "7 5 0 0", "64 f 0 6"]);
}

#[test]
fn args_captures_registers_in_order() {
    let prog = vec![Stmt::Args];
    assert_eq!(
        lines(&prog),
        vec![
            "65 5 1 5", "7 5 1 0", "65 5 1 5", "7 5 2 0", "65 5 1 5", "7 5 3 0", "65 5 1 5",
            "7 5 4 0",
        ]
    );
}

#[test]
fn ret_restores_registers_in_reverse_order() {
    let prog = vec![Stmt::Ret];
    assert_eq!(
        lines(&prog),
        vec![
            "6 5 0 0", "64 5 1 5", "6 5 0 4", "64 5 1 5", "6 5 0 3", "64 5 1 5", "6 5 0 2",
            "64 5 1 5", "6 5 0 1", "64 5 1 5", "64 0 0 6",
        ]
    );
}

#[test]
fn args_then_ret_is_push_then_reverse_pop() {
    let prog = vec![Stmt::Args, Stmt::Ret];
    let out = lines(&prog);
    assert_eq!(out.len(), 19);
    // capture order: store registers 1, 2, 3, 4
    let captured: Vec<&str> = vec![&out[1], &out[3], &out[5], &out[7]];
    assert_eq!(captured, vec!["7 5 1 0", "7 5 2 0", "7 5 3 0", "7 5 4 0"]);
    // restore order: load registers 4, 3, 2, 1 — the exact reverse
    let restored: Vec<&str> = vec![&out[10], &out[12], &out[14], &out[16]];
    assert_eq!(restored, vec!["6 5 0 4", "6 5 0 3", "6 5 0 2", "6 5 0 1"]);
}

#[test]
fn while_renders_four_fixed_lines_with_inverted_guard() {
    let prog = vec![Stmt::While {
        cond: cond(Val::Reg(Reg::R1), Cmp::Lt, Val::Im(10)),
        block: vec![Stmt::Bin(Bop::Add, Val::Reg(Reg::R1), Val::Im(1), Reg::R1)],
    }];
    // guard uses Geq (21), the inverse of Lt, packed with the immediate flag: 21 + 64
    assert_eq!(
        lines(&prog),
        vec!["label L_0", "85 1 10 E_0", "64 1 1 1", "16 0 0 L_0", "label E_0"]
    );
}

#[test]
fn while_with_empty_body() {
    let prog = vec![Stmt::While {
        cond: cond(Val::Reg(Reg::R0), Cmp::Eq, Val::Im(0)),
        block: vec![],
    }];
    assert_eq!(lines(&prog), vec!["label L_0", "81 0 0 E_0", "16 0 0 L_0", "label E_0"]);
}

#[test]
fn if_with_empty_else_keeps_skip_jump() {
    let prog = vec![Stmt::If {
        cond: cond(Val::Reg(Reg::R0), Cmp::Eq, Val::Im(0)),
        yes: vec![Stmt::Bin(Bop::Add, Val::Reg(Reg::R0), Val::Im(1), Reg::R0)],
        no: vec![],
    }];
    assert_eq!(
        lines(&prog),
        vec!["80 0 0 T_0", "16 0 0 D_0", "label T_0", "64 0 1 0", "label D_0"]
    );
}

#[test]
fn if_with_else_places_jump_after_else_block() {
    let prog = vec![Stmt::If {
        cond: cond(Val::Reg(Reg::R2), Cmp::Gt, Val::Im(5)),
        yes: vec![Stmt::Un(Uop::Not, Val::Reg(Reg::R2), Reg::R2)],
        no: vec![Stmt::Bin(Bop::And, Val::Reg(Reg::R2), Val::Im(1), Reg::R2)],
    }];
    assert_eq!(
        lines(&prog),
        vec!["84 2 5 T_0", "66 2 1 2", "16 0 0 D_0", "label T_0", "4 2 0 2", "label D_0"]
    );
}

#[test]
fn loop_renders_entry_label_and_back_branch() {
    let prog = vec![Stmt::Loop { block: vec![Stmt::Hf(Reg::R0)] }];
    assert_eq!(lines(&prog), vec!["label L_0", "15 0 0 0", "16 0 0 L_0"]);
}

#[test]
fn empty_program_renders_nothing() {
    let prog: Vec<Stmt> = vec![];
    assert_eq!(lines(&prog).len(), 0);
}

fn generated_labels(out: &Vec<String>) -> Vec<String> {
    let mut found: Vec<String> = Vec::new();
    for line in out {
        for tok in line.split_whitespace() {
            let gen = tok.len() >= 2
                && (tok.starts_with("L_") || tok.starts_with("E_") || tok.starts_with("T_")
                    || tok.starts_with("D_"));
            if gen && !found.contains(&tok.to_string()) {
                found.push(tok.to_string());
            }
        }
    }
    found.sort();
    found
}

#[test]
fn nested_constructs_mint_distinct_labels() {
    // a While holding an If and a Loop back-to-back, then a second If at
    // the top level: five constructs, seven generated labels, no collisions
    let c = cond(Val::Reg(Reg::R0), Cmp::Eq, Val::Im(0));
    let prog = vec![
        Stmt::While {
            cond: c,
            block: vec![
                Stmt::If { cond: c, yes: vec![], no: vec![] },
                Stmt::Loop { block: vec![] },
            ],
        },
        Stmt::If { cond: c, yes: vec![], no: vec![] },
    ];
    let out = lines(&prog);
    let labels = generated_labels(&out);
    assert_eq!(labels.len(), 7);
    assert_eq!(labels, vec!["D_1", "D_3", "E_0", "L_0", "L_2", "T_1", "T_3"]);
}

#[test]
fn rerender_is_byte_identical() {
    let prog = vec![
        Stmt::While {
            cond: cond(Val::Reg(Reg::R1), Cmp::Leq, Val::Im(3)),
            block: vec![Stmt::Loop { block: vec![Stmt::Hf(Reg::R1)] }],
        },
        Stmt::If {
            cond: cond(Val::Im(1), Cmp::Geq, Val::Reg(Reg::R2)),
            yes: vec![Stmt::Ret],
            no: vec![Stmt::Args],
        },
    ];
    let first = lines(&prog);
    let second = lines(&prog);
    assert_eq!(first, second);
}

#[test]
fn label_counter_advances_once_per_construct() {
    let c = cond(Val::Reg(Reg::R0), Cmp::Eq, Val::Im(0));
    let prog = vec![
        Stmt::While {
            cond: c,
            block: vec![
                Stmt::If { cond: c, yes: vec![], no: vec![] },
                Stmt::Loop { block: vec![] },
            ],
        },
        Stmt::If { cond: c, yes: vec![], no: vec![] },
    ];
    let mut gen = LabelGen::new();
    let mut out = Vec::new();
    lower_block(&prog, &mut gen, &mut out);
    assert_eq!(gen.counter, 4);
}

#[test]
fn decimal_rendering() {
    assert_eq!(dec_str(0), "0");
    assert_eq!(dec_str(9), "9");
    assert_eq!(dec_str(10), "10");
    assert_eq!(dec_str(255), "255");
    assert_eq!(dec_str(12345), "12345");
}
