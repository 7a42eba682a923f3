use asm_leg::ast::{Bop, Cmp, Reg, ToNum, Uop, Val};

#[test]
fn register_indices() {
    assert_eq!(Reg::R0.to_num(), 0);
    assert_eq!(Reg::R1.to_num(), 1);
    assert_eq!(Reg::R2.to_num(), 2);
    assert_eq!(Reg::R3.to_num(), 3);
    assert_eq!(Reg::R4.to_num(), 4);
    assert_eq!(Reg::R5.to_num(), 5);
    assert_eq!(Reg::P.to_num(), 6);
}

#[test]
fn input_and_output_registers_share_index_seven() {
    assert_eq!(Reg::I.to_num(), 7);
    assert_eq!(Reg::O.to_num(), 7);
}

#[test]
fn binary_opcode_table() {
    assert_eq!(Bop::Add.to_num(), 0);
    assert_eq!(Bop::Sub.to_num(), 1);
    assert_eq!(Bop::And.to_num(), 2);
    assert_eq!(Bop::Or.to_num(), 3);
    assert_eq!(Bop::Xor.to_num(), 5);
    assert_eq!(Bop::Shl.to_num(), 8);
    assert_eq!(Bop::Shr.to_num(), 9);
    assert_eq!(Bop::Rol.to_num(), 10);
    assert_eq!(Bop::Ror.to_num(), 11);
    assert_eq!(Bop::Ashr.to_num(), 12);
    assert_eq!(Bop::Mul.to_num(), 13);
    assert_eq!(Bop::Div.to_num(), 14);
}

#[test]
fn unary_opcode_table() {
    assert_eq!(Uop::Not.to_num(), 4);
}

#[test]
fn comparison_opcode_table() {
    assert_eq!(Cmp::Eq.to_num(), 16);
    assert_eq!(Cmp::Neq.to_num(), 17);
    assert_eq!(Cmp::Lt.to_num(), 18);
    assert_eq!(Cmp::Leq.to_num(), 19);
    assert_eq!(Cmp::Gt.to_num(), 20);
    assert_eq!(Cmp::Geq.to_num(), 21);
}

#[test]
fn comparison_inverses() {
    assert_eq!(Cmp::Eq.inv(), Cmp::Neq);
    assert_eq!(Cmp::Neq.inv(), Cmp::Eq);
    assert_eq!(Cmp::Lt.inv(), Cmp::Geq);
    assert_eq!(Cmp::Geq.inv(), Cmp::Lt);
    assert_eq!(Cmp::Leq.inv(), Cmp::Gt);
    assert_eq!(Cmp::Gt.inv(), Cmp::Leq);
}

#[test]
fn value_operand_encoding() {
    assert_eq!(Val::Reg(Reg::R4).to_num(), 4);
    assert_eq!(Val::Im(200).to_num(), 200);
    assert_eq!(0u8.to_num(), 0);
    assert_eq!(255u8.to_num(), 255);
}

#[test]
fn value_kind_queries() {
    assert!(Val::Reg(Reg::R0).is_reg());
    assert!(!Val::Reg(Reg::R0).is_im());
    assert!(Val::Im(0).is_im());
    assert!(!Val::Im(0).is_reg());
}
