use acwj_rs::ast::AstNode;
use acwj_rs::cg::X86_64Backend;
use acwj_rs::cg_arm32::ArmV7Backend;
use acwj_rs::cgen::{CodeBackend, CodeGenerator};
use acwj_rs::driver::compile;
use acwj_rs::dummy_cg::DummyBackend;
use acwj_rs::error::ErrorKind;
use acwj_rs::scan::TokenType;
use acwj_rs::sym::{PrimType, SymbolTable, SymbolTableBuilder};

fn compile_x86(src: &str) -> String {
    compile(src.as_bytes().to_vec(), X86_64Backend::new()).ok().expect("compilation failed").output().clone()
}

/// The labels that `text` places, in order.
fn placed_labels(text: &str) -> Vec<String> {
    text.lines()
        .filter(|l| l.ends_with(':') && (l.starts_with('L') || l.starts_with(".L")) && !l.starts_with(".LC"))
        .map(|l| l.to_string())
        .collect()
}

#[test]
fn compile_print_program() {
    let text = compile_x86("void main() { printint(42); }");
    assert!(text.starts_with(acwj_rs::cg::PREAMBLE));
    assert!(text.contains("\t.globl\tmain\n"));
    assert!(text.contains("main:\n\tpushq\t%rbp\n"));
    assert!(text.contains("\tmovq\t$42, %r8\n\tmovq\t%r8, %rdi\n\tcall\tprintint\n\tmovq\t%rax, %r8\n"));
    assert!(text.ends_with("L1:\n\tpopq\t%rbp\n\tret\n"));
}

#[test]
fn compile_declares_globals_before_code() {
    let text = compile_x86("void main() { int i; char c; i = 5; c = 2; }");
    let comm_i = text.find("\t.comm\ti,8,8\n").unwrap();
    let comm_c = text.find("\t.comm\tc,1,1\n").unwrap();
    let main = text.find("main:").unwrap();
    assert!(comm_i < comm_c && comm_c < main);
    assert!(text.contains("\tmovq\t%r8, i(%rip)\n"));
    assert!(text.contains("\tmovb\t%r8b, c(%rip)\n"));
}

#[test]
fn compile_places_each_label_once() {
    let text = compile_x86(
        "void main() { int i; i = 0; while (i < 3) { if (i == 1) { printint(i); } else { printint(0); } i = i + 1; } }
         int two() { return(2); }",
    );
    let labels = placed_labels(&text);
    let mut unique = labels.clone();
    unique.sort();
    unique.dedup();
    assert_eq!(labels.len(), unique.len(), "a label is placed twice: {labels:?}");
    assert!(labels.len() >= 6);
    assert!(text.contains("\tjmp\tL"));
}

#[test]
fn compile_return_jumps_to_end_label() {
    let text = compile_x86("int two() { return(2); }");
    assert!(text.contains("\tmovq\t$2, %r8\n\tmovq\t%r8, %rax\n\tjmp\tL1\n"));
    assert!(text.contains("L1:\n\tpopq\t%rbp\n\tret\n"));
}

#[test]
fn compile_arm_program() {
    let backend = compile("void main() { printint(70000); }".as_bytes().to_vec(), ArmV7Backend::new()).ok().unwrap();
    let text = backend.output().clone();
    assert!(text.contains("\tmovw\tr4, 0x1170\n\tmovt\tr4, 0x1\n"));
    assert!(text.contains("\tbl\tprintint\n"));
    assert!(text.contains(".L1:\n"));
}

#[test]
fn compile_reports_parse_errors() {
    let err = compile("int main() {}".as_bytes().to_vec(), DummyBackend::new()).err().unwrap().1;
    assert_eq!(err.kind, ErrorKind::MissingReturn);
    let err = compile("void main() {\n  x = 1;\n}".as_bytes().to_vec(), DummyBackend::new()).err().unwrap().1;
    assert_eq!(err.kind, ErrorKind::UndeclaredVariable);
    assert_eq!(err.line, 2);
    let err = compile("main() {}".as_bytes().to_vec(), DummyBackend::new()).err().unwrap().1;
    assert_eq!(err.kind, ErrorKind::ExpectedFunctionDeclaration);
}

#[test]
fn compile_empty_program_emits_preamble_only() {
    let text = compile_x86("");
    assert_eq!(text, acwj_rs::cg::PREAMBLE);
}

fn generator() -> CodeGenerator<X86_64Backend> {
    let symbols = SymbolTableBuilder::new().add_glob_fn("printint", PrimType::Void).build();
    CodeGenerator::new(X86_64Backend::new(), &symbols)
}

#[test]
fn gen_label_increments_counter() {
    let mut cg = generator();
    assert_eq!(cg.get_last_label(), 0);
    assert_eq!(cg.label(), 1);
    assert_eq!(cg.label(), 2);
    assert_eq!(cg.get_last_label(), 2);
}

#[test]
fn gen_binary_expression_text() {
    let mut cg = generator();
    let node = AstNode::make_binary(
        TokenType::Minus,
        AstNode::make_intlit(5, PrimType::Int),
        AstNode::make_intlit(3, PrimType::Int),
        PrimType::Int,
    );
    let reg = cg.gen_ast(&node, None, None, 0).unwrap();
    assert!(reg.is_some());
    assert_eq!(cg.backend().output().as_str(), "\tmovq\t$5, %r8\n\tmovq\t$3, %r9\n\tsubq\t%r9, %r8\n");
}

#[test]
fn gen_if_with_else_uses_two_labels() {
    let mut cg = generator();
    let cond = AstNode::make_binary(TokenType::EQ, AstNode::make_intlit(1, PrimType::Int), AstNode::make_intlit(2, PrimType::Int), PrimType::Int);
    let t = AstNode::make_function_call("printint", AstNode::make_intlit(10, PrimType::Int), PrimType::Int);
    let f = AstNode::make_function_call("printint", AstNode::make_intlit(20, PrimType::Int), PrimType::Int);
    let node = AstNode::make_if(cond, t, Some(f));
    assert!(cg.gen_ast(&node, None, None, 0).unwrap().is_none());
    let out = cg.backend().output().clone();
    assert!(out.contains("\tjne\tL1\n"));
    assert!(out.contains("\tjmp\tL2\nL1:\n"));
    assert!(out.ends_with("L2:\n"));
    assert_eq!(cg.get_last_label(), 2);
}

#[test]
fn gen_while_loops_back() {
    let mut cg = generator();
    let cond = AstNode::make_binary(TokenType::NE, AstNode::make_intlit(0, PrimType::Int), AstNode::make_intlit(1, PrimType::Int), PrimType::Int);
    let node = AstNode::make_while(cond, AstNode::Empty);
    cg.gen_ast(&node, None, None, 0).unwrap();
    let out = cg.backend().output().clone();
    assert!(out.starts_with("L1:\n"));
    assert!(out.contains("\tje\tL2\n"));
    assert!(out.ends_with("\tjmp\tL1\nL2:\n"));
}

#[test]
fn gen_rejects_untranslatable_trees() {
    let mut cg = generator();
    // An address-of has no code generation.
    let addr = AstNode::make_ident("x", PrimType::Int).into_pointer();
    assert_eq!(cg.gen_ast(&addr, None, None, 0).unwrap_err().kind, ErrorKind::InvalidTree);
    // An l-value needs a register to store.
    let lv = AstNode::make_lvident("x", PrimType::Int);
    assert_eq!(cg.gen_ast(&lv, None, None, 0).unwrap_err().kind, ErrorKind::InvalidTree);
    // A return from a function that has no end label yet.
    let ret = AstNode::make_return("printint", AstNode::make_intlit(1, PrimType::Int));
    assert_eq!(cg.gen_ast(&ret, None, None, 0).unwrap_err().kind, ErrorKind::InvalidTree);
}

#[test]
fn gen_out_of_registers() {
    let mut cg = generator();
    // Five nested additions on the right need more registers than there are.
    let mut node = AstNode::make_intlit(1, PrimType::Int);
    for i in 0..5 {
        node = AstNode::make_binary(TokenType::Plus, AstNode::make_intlit(i, PrimType::Int), node, PrimType::Int);
    }
    assert_eq!(cg.gen_ast(&node, None, None, 0).unwrap_err().kind, ErrorKind::OutOfRegisters);
}

#[test]
fn gen_preamble_declares_variables_in_order() {
    let mut symbols = SymbolTable::default();
    symbols.add_glob_fn("main", PrimType::Int);
    symbols.add_glob("foo", PrimType::Char, acwj_rs::sym::StructuralType::Variable);
    symbols.add_glob("bar", PrimType::Long, acwj_rs::sym::StructuralType::Variable);
    let mut cg = CodeGenerator::new(X86_64Backend::new(), &symbols);
    cg.gen_preamble().unwrap();
    let out = cg.backend().output().clone();
    assert!(out.ends_with("\t.comm\tfoo,1,1\n\t.comm\tbar,8,8\n"));
    cg.gen_freeregs().unwrap();
    assert_eq!(cg.type_size(PrimType::Long), 8);
    assert_eq!(<X86_64Backend as CodeBackend>::alignment(), 3);
}

#[test]
fn compile_hands_back_the_backend_on_failure() {
    // A parse error leaves the back end untouched.
    let (backend, err) = compile("int main() {}".as_bytes().to_vec(), X86_64Backend::new()).err().unwrap();
    assert_eq!(err.kind, ErrorKind::MissingReturn);
    assert_eq!(backend.output().as_str(), "");
    // A refused request stops code generation; what was emitted before it stays.
    let src = "void main() { printint(1 + 2 * 3 == 4 < 5); }";
    let (backend, err) = compile(src.as_bytes().to_vec(), X86_64Backend::new()).err().unwrap();
    assert_eq!(err.kind, ErrorKind::OutOfRegisters);
    assert!(backend.output().starts_with(acwj_rs::cg::PREAMBLE));
}
