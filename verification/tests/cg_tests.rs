use acwj_rs::ast::AstNode;
use acwj_rs::cg::{ast_to_jmp_op, ast_to_set_op, X86_64Backend, X86_64Reg, X86_64Reg8b};
use acwj_rs::cgen::CodeBackend;
use acwj_rs::error::ErrorKind;
use acwj_rs::scan::TokenType;
use acwj_rs::sym::PrimType;

fn bin(t: TokenType) -> AstNode {
    AstNode::make_binary(t, AstNode::make_intlit(0, PrimType::Int), AstNode::make_intlit(0, PrimType::Int), PrimType::Int)
}

#[test]
fn cg_compare_and_set_all_ops() {
    let cases = [
        (bin(TokenType::EQ), "sete"),
        (bin(TokenType::NE), "setne"),
        (bin(TokenType::LT), "setl"),
        (bin(TokenType::GT), "setg"),
        (bin(TokenType::LE), "setle"),
        (bin(TokenType::GE), "setge"),
    ];
    for (op, expected_set) in &cases {
        let mut backend = X86_64Backend::new();
        let r1 = backend.alloc_register().unwrap();
        let r2 = backend.alloc_register().unwrap();
        let result = backend.compare_and_set(op, r1, r2).unwrap();
        assert_eq!(result, Some(r2));
        let output = backend.output().clone();
        assert!(output.contains("cmpq"), "cmpq missing for {expected_set}");
        assert!(output.contains(expected_set), "missing {expected_set}");
        assert!(output.contains("movzbq"), "movzbq missing for {expected_set}");
        assert!(backend.is_free(r1), "r1 should be freed for {expected_set}");
    }
}

#[test]
fn cg_compare_and_jump_all_ops() {
    let cases = [
        (bin(TokenType::EQ), "jne"),
        (bin(TokenType::NE), "je"),
        (bin(TokenType::LT), "jge"),
        (bin(TokenType::GT), "jle"),
        (bin(TokenType::LE), "jg"),
        (bin(TokenType::GE), "jl"),
    ];
    for (op, expected_jmp) in &cases {
        let mut backend = X86_64Backend::new();
        let r1 = backend.alloc_register().unwrap();
        let r2 = backend.alloc_register().unwrap();
        let result = backend.compare_and_jump(op, r1, r2, 1).unwrap();
        assert!(result.is_none());
        let output = backend.output().clone();
        assert!(output.contains("cmpq"), "cmpq missing for {expected_jmp}");
        assert!(output.contains(expected_jmp), "missing {expected_jmp}");
        assert!(output.contains("L1"), "missing label L1 for {expected_jmp}");
    }
}

#[test]
fn cg_ast_to_jmp_op_maps_correctly() {
    assert_eq!(ast_to_jmp_op(&bin(TokenType::EQ)), "jne");
    assert_eq!(ast_to_jmp_op(&bin(TokenType::NE)), "je");
    assert_eq!(ast_to_jmp_op(&bin(TokenType::LT)), "jge");
    assert_eq!(ast_to_jmp_op(&bin(TokenType::GT)), "jle");
    assert_eq!(ast_to_jmp_op(&bin(TokenType::LE)), "jg");
    assert_eq!(ast_to_jmp_op(&bin(TokenType::GE)), "jl");
}

#[test]
fn cg_ast_to_set_op_maps_correctly() {
    assert_eq!(ast_to_set_op(&bin(TokenType::EQ)), "sete");
    assert_eq!(ast_to_set_op(&bin(TokenType::NE)), "setne");
    assert_eq!(ast_to_set_op(&bin(TokenType::LT)), "setl");
    assert_eq!(ast_to_set_op(&bin(TokenType::GT)), "setg");
    assert_eq!(ast_to_set_op(&bin(TokenType::LE)), "setle");
    assert_eq!(ast_to_set_op(&bin(TokenType::GE)), "setge");
}

#[test]
fn cg_reg_display_format() {
    assert_eq!(X86_64Reg::R8.name(), "%r8");
    assert_eq!(X86_64Reg::R9.name(), "%r9");
    assert_eq!(X86_64Reg::R10.name(), "%r10");
    assert_eq!(X86_64Reg::R11.name(), "%r11");
}

#[test]
fn reg8b_display_format() {
    assert_eq!(X86_64Reg8b::R8.name(), "%r8b");
    assert_eq!(X86_64Reg8b::R9.name(), "%r9b");
    assert_eq!(X86_64Reg8b::R10.name(), "%r10b");
    assert_eq!(X86_64Reg8b::R11.name(), "%r11b");
}

#[test]
fn reg_as_8b() {
    assert!(matches!(X86_64Reg::R8.as_8b(), X86_64Reg8b::R8));
    assert!(matches!(X86_64Reg::R9.as_8b(), X86_64Reg8b::R9));
    assert!(matches!(X86_64Reg::R10.as_8b(), X86_64Reg8b::R10));
    assert!(matches!(X86_64Reg::R11.as_8b(), X86_64Reg8b::R11));
}

#[test]
fn cg_alloc_register_returns_unique_registers() {
    let mut backend = X86_64Backend::new();
    let regs: Vec<X86_64Reg> = (0..4).map(|_| backend.alloc_register().unwrap()).collect();
    assert_eq!(regs, vec![X86_64Reg::R8, X86_64Reg::R9, X86_64Reg::R10, X86_64Reg::R11]);
    assert_eq!(backend.alloc_register().unwrap_err().kind, ErrorKind::OutOfRegisters);
}

#[test]
fn cg_free_register_restores_availability() {
    let mut backend = X86_64Backend::new();
    let reg = backend.alloc_register().unwrap();
    assert!(!backend.is_free(reg));
    backend.free_register(reg);
    assert!(backend.is_free(reg));
    assert_eq!(backend.alloc_register().unwrap(), reg);
}

#[test]
fn cg_load_int_writes_exact_text() {
    let mut backend = X86_64Backend::new();
    backend.load_int(42).unwrap();
    backend.load_int(-7).unwrap();
    backend.load_int(i64::MIN).unwrap();
    assert_eq!(
        backend.output().as_str(),
        "\tmovq\t$42, %r8\n\tmovq\t$-7, %r9\n\tmovq\t$-9223372036854775808, %r10\n"
    );
}

#[test]
fn cg_glob_sym_and_store() {
    let mut backend = X86_64Backend::new();
    backend.glob_sym("x", PrimType::Int).unwrap();
    backend.glob_sym("c", PrimType::Char).unwrap();
    backend.glob_sym("v", PrimType::Void).unwrap();
    let reg = backend.alloc_register().unwrap();
    backend.store_glob(reg, "c", PrimType::Char).unwrap();
    assert_eq!(
        backend.output().as_str(),
        "\t.comm\tx,8,8\n\t.comm\tc,1,1\n\tmovb\t%r8b, c(%rip)\n"
    );
    assert_eq!(backend.load_glob("v", PrimType::Void).unwrap_err().kind, ErrorKind::InvalidTree);
}

#[test]
fn cg_labels_and_jumps() {
    let mut backend = X86_64Backend::new();
    backend.label(42).unwrap();
    backend.jump(7).unwrap();
    backend.func_postamble(3).unwrap();
    assert_eq!(backend.output().as_str(), "L42:\n\tjmp\tL7\nL3:\n\tpopq\t%rbp\n\tret\n");
}
