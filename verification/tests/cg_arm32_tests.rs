use acwj_rs::ast::AstNode;
use acwj_rs::cg_arm32::{ast_to_jmp_op, ast_to_set_op, ArmV7Backend, ArmV7Reg};
use acwj_rs::cgen::CodeBackend;
use acwj_rs::error::ErrorKind;
use acwj_rs::scan::TokenType;
use acwj_rs::sym::PrimType;

fn bin(t: TokenType) -> AstNode {
    AstNode::make_binary(t, AstNode::make_intlit(0, PrimType::Int), AstNode::make_intlit(0, PrimType::Int), PrimType::Int)
}

#[test]
fn cg_arm32_compare_and_set_all_ops() {
    let cases = [
        (bin(TokenType::EQ), ("moveq", "movne")),
        (bin(TokenType::NE), ("movne", "moveq")),
        (bin(TokenType::LT), ("movlt", "movge")),
        (bin(TokenType::GT), ("movgt", "movle")),
        (bin(TokenType::LE), ("movle", "movgt")),
        (bin(TokenType::GE), ("movge", "movlt")),
    ];
    for (op, (op1, op2)) in &cases {
        let mut backend = ArmV7Backend::new();
        let r1 = backend.alloc_register().unwrap();
        let r2 = backend.alloc_register().unwrap();
        let result = backend.compare_and_set(op, r1, r2).unwrap();
        assert_eq!(result, Some(r2));
        let output = backend.output().clone();
        assert!(output.contains("cmp"), "cmp missing for {op1}/{op2}");
        assert!(output.contains(op1), "missing {op1}");
        assert!(output.contains(op2), "missing {op2}");
        assert!(backend.is_free(r1), "r1 should be freed for {op1}/{op2}");
    }
}

#[test]
fn cg_arm32_compare_and_jump_all_ops() {
    let cases = [
        (bin(TokenType::EQ), "bne"),
        (bin(TokenType::NE), "beq"),
        (bin(TokenType::LT), "bge"),
        (bin(TokenType::GT), "ble"),
        (bin(TokenType::LE), "bgt"),
        (bin(TokenType::GE), "blt"),
    ];
    for (op, expected_jmp) in &cases {
        let mut backend = ArmV7Backend::new();
        let r1 = backend.alloc_register().unwrap();
        let r2 = backend.alloc_register().unwrap();
        let result = backend.compare_and_jump(op, r1, r2, 1).unwrap();
        assert!(result.is_none());
        let output = backend.output().clone();
        assert!(output.contains("cmp"), "cmp missing for {expected_jmp}");
        assert!(output.contains(expected_jmp), "missing {expected_jmp}");
        assert!(output.contains(".L1"), "missing label L1 for {expected_jmp}");
    }
}

#[test]
fn cg_arm32_ast_to_jmp_op_maps_correctly() {
    assert_eq!(ast_to_jmp_op(&bin(TokenType::EQ)), "bne");
    assert_eq!(ast_to_jmp_op(&bin(TokenType::NE)), "beq");
    assert_eq!(ast_to_jmp_op(&bin(TokenType::LT)), "bge");
    assert_eq!(ast_to_jmp_op(&bin(TokenType::GT)), "ble");
    assert_eq!(ast_to_jmp_op(&bin(TokenType::LE)), "bgt");
    assert_eq!(ast_to_jmp_op(&bin(TokenType::GE)), "blt");
}

#[test]
fn cg_arm32_ast_to_set_op_maps_correctly() {
    assert_eq!(ast_to_set_op(&bin(TokenType::EQ)), ("moveq", "movne"));
    assert_eq!(ast_to_set_op(&bin(TokenType::NE)), ("movne", "moveq"));
    assert_eq!(ast_to_set_op(&bin(TokenType::LT)), ("movlt", "movge"));
    assert_eq!(ast_to_set_op(&bin(TokenType::GT)), ("movgt", "movle"));
    assert_eq!(ast_to_set_op(&bin(TokenType::LE)), ("movle", "movgt"));
    assert_eq!(ast_to_set_op(&bin(TokenType::GE)), ("movge", "movlt"));
}

#[test]
fn cg_arm32_reg_display_format() {
    assert_eq!(ArmV7Reg::R4.name(), "r4");
    assert_eq!(ArmV7Reg::R5.name(), "r5");
    assert_eq!(ArmV7Reg::R6.name(), "r6");
    assert_eq!(ArmV7Reg::R7.name(), "r7");
}

#[test]
fn alignment_returns_2() {
    assert_eq!(<ArmV7Backend as CodeBackend>::alignment(), 2);
}

#[test]
fn cg_arm32_label_and_jump_text() {
    let mut backend = ArmV7Backend::new();
    backend.label(42).unwrap();
    backend.jump(7).unwrap();
    assert_eq!(backend.output().as_str(), ".L42:\n\tb\t.L7\n");
}

#[test]
fn cg_arm32_load_int_uses_movw_movt_for_large_values() {
    let mut backend = ArmV7Backend::new();
    let reg = backend.load_int(0x1_0000).unwrap();
    assert_eq!(reg, ArmV7Reg::R4);
    backend.load_int(42).unwrap();
    backend.load_int(-1).unwrap();
    assert_eq!(
        backend.output().as_str(),
        "\tmovw\tr4, 0x0\n\tmovt\tr4, 0x1\n\tmovw\tr5, 0x2a\n\tmovw\tr6, 0xffff\n\tmovt\tr6, 0xffff\n"
    );
}

#[test]
fn cg_arm32_glob_sym() {
    let mut backend = ArmV7Backend::new();
    backend.glob_sym("l", PrimType::Long).unwrap();
    backend.glob_sym("c", PrimType::Char).unwrap();
    assert_eq!(backend.output().as_str(), ".global l\nl:\n\t.zero 4\n.global c\nc:\n\t.zero 1\n");
    assert_eq!(backend.glob_sym("v", PrimType::Void).unwrap_err().kind, ErrorKind::InvalidTree);
}

#[test]
fn cg_arm32_type_sizes() {
    let backend = ArmV7Backend::new();
    assert_eq!(backend.type_size(PrimType::Char), 1);
    assert_eq!(backend.type_size(PrimType::Int), 4);
    assert_eq!(backend.type_size(PrimType::Long), 4);
    assert_eq!(backend.type_size(PrimType::Void), 0);
}
