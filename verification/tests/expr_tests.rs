use acwj_rs::ast::AstNode;
use acwj_rs::cgen::CodeGenerator;
use acwj_rs::dummy_cg::DummyBackend;
use acwj_rs::error::CompileError;
use acwj_rs::expr::{is_arithop, op_precedence, Compatibility, ExpressionGenerator};
use acwj_rs::scan::{Scanner, TokenType};
use acwj_rs::sym::{PrimType, StructuralType, SymbolTable};

fn scanner_from(s: &str) -> Scanner {
    Scanner::new(s.as_bytes().to_vec())
}

fn generator(text: &str, sym_table: SymbolTable) -> ExpressionGenerator {
    let code_gen = CodeGenerator::new(DummyBackend::new(), &sym_table);
    ExpressionGenerator::new(scanner_from(text), sym_table, &code_gen)
}

fn primary(text: &str) -> Result<AstNode, CompileError> {
    generator(text, SymbolTable::new()).primary()
}

fn binexpr(text: &str, ptp: i16) -> Result<AstNode, CompileError> {
    generator(text, SymbolTable::new()).binexpr(ptp)
}

#[test]
fn primary_intlit_returns_leaf_node() {
    let node = primary("42").unwrap();
    assert_eq!(node, AstNode::make_intlit(42, PrimType::Char));
}

#[test]
fn primary_intlit_in_char_range() {
    let node = primary("255").unwrap();
    assert_eq!(node, AstNode::make_intlit(255, PrimType::Char));
}

#[test]
fn binexpr_single_integer_returns_intlit_root() {
    let tree = binexpr("7", 0).expect("Expected a clean parsing");
    assert_eq!(tree, AstNode::make_intlit(7, PrimType::Char));
}

#[test]
fn binexpr_addition_builds_correct_tree() {
    let tree = binexpr("3 + 5", 0).expect("Expected a clean parsing");
    assert_eq!(tree, AstNode::make_binary(TokenType::Plus,
                                          AstNode::make_intlit(3, PrimType::Char),
                                          AstNode::make_intlit(5, PrimType::Char),
                                          PrimType::Char));
}

#[test]
fn binexpr_equal_precedence_is_left_associative() {
    // "2 - 3 + 5" parses as Add(Subtract(2, 3), 5)
    let tree = binexpr("2 - 3 + 5", 0).expect("Expected a clean parsing");
    assert_eq!(tree,
        AstNode::make_binary(TokenType::Plus,
            AstNode::make_binary(TokenType::Minus,
                                 AstNode::make_intlit(2, PrimType::Char),
                                 AstNode::make_intlit(3, PrimType::Char),
                                 PrimType::Char),
            AstNode::make_intlit(5, PrimType::Char),
            PrimType::Char));
}

#[test]
fn op_precedence_returns_correct_values() {
    let s = scanner_from("");
    let line = s.get_line();
    assert_eq!(op_precedence(line, &TokenType::Plus).unwrap(), 10);
    assert_eq!(op_precedence(line, &TokenType::Minus).unwrap(), 10);
    assert_eq!(op_precedence(line, &TokenType::Star).unwrap(), 20);
    assert_eq!(op_precedence(line, &TokenType::Slash).unwrap(), 20);
    assert_eq!(op_precedence(line, &TokenType::EQ).unwrap(), 30);
    assert_eq!(op_precedence(line, &TokenType::NE).unwrap(), 30);
    assert_eq!(op_precedence(line, &TokenType::LT).unwrap(), 40);
    assert_eq!(op_precedence(line, &TokenType::LE).unwrap(), 40);
    assert_eq!(op_precedence(line, &TokenType::GT).unwrap(), 40);
    assert_eq!(op_precedence(line, &TokenType::GE).unwrap(), 40);
}

#[test]
fn op_precedence_fails_on_non_operator() {
    assert!(op_precedence(1, &TokenType::Semi).is_err());
    assert!(op_precedence(1, &TokenType::IntLit(1)).is_err());
}

#[test]
fn is_arithop_true_for_all_operator_tokens() {
    for tok in &[TokenType::Plus, TokenType::Minus, TokenType::Star, TokenType::Slash,
                 TokenType::EQ, TokenType::NE, TokenType::LT, TokenType::LE, TokenType::GT, TokenType::GE] {
        assert!(is_arithop(tok), "{tok:?} should be an arith op");
    }
}

#[test]
fn is_arithop_false_for_non_operators() {
    assert!(!is_arithop(&TokenType::IntLit(1)));
    assert!(!is_arithop(&TokenType::Semi));
    assert!(!is_arithop(&TokenType::Ident("x".into())));
}

#[test]
fn binexpr_equality_comparison_builds_equal_root() {
    let tree = binexpr("3 == 5", 0).expect("Expected a clean parsing");
    assert_eq!(tree, AstNode::make_binary(TokenType::EQ,
                                          AstNode::make_intlit(3, PrimType::Char),
                                          AstNode::make_intlit(5, PrimType::Char),
                                          PrimType::Char));
}

#[test]
fn type_compatibility_equal_types() {
    let expr = generator("1", SymbolTable::new());
    assert!(matches!(expr.type_compatibility(PrimType::Int, PrimType::Int, false),
                     Compatibility::Compatible(PrimType::Int)));
}

#[test]
fn type_compatibility_widen_left() {
    let expr = generator("1", SymbolTable::new());
    assert!(matches!(expr.type_compatibility(PrimType::Char, PrimType::Int, false),
                     Compatibility::WidenLeft(PrimType::Int)));
}

#[test]
fn type_compatibility_widen_right() {
    let expr = generator("1", SymbolTable::new());
    assert!(matches!(expr.type_compatibility(PrimType::Int, PrimType::Char, false),
                     Compatibility::WidenRight(PrimType::Int)));
}

#[test]
fn type_compatibility_only_right_blocks_widen() {
    let expr = generator("1", SymbolTable::new());
    assert!(matches!(expr.type_compatibility(PrimType::Int, PrimType::Char, true),
                     Compatibility::Incompatible));
}

#[test]
fn type_compatibility_void_incompatible() {
    let expr = generator("1", SymbolTable::new());
    assert!(matches!(expr.type_compatibility(PrimType::Void, PrimType::Int, false),
                     Compatibility::Incompatible));
}

#[test]
fn type_compatibility_same_size() {
    let expr = generator("1", SymbolTable::new());
    assert!(matches!(expr.type_compatibility(PrimType::Long, PrimType::LongPtr, false),
                     Compatibility::Compatible(PrimType::Long)));
}

#[test]
fn enter_exit_function_tracks_context() {
    let mut sym_table = SymbolTable::new();
    sym_table.add_glob_fn("main", PrimType::Int);
    let mut expr = generator("1", sym_table);
    expr.enter_function("main");
    assert_eq!(expr.current_function_type(), PrimType::Int);
    assert_eq!(expr.current_function_name(), "main");
    expr.exit_function();
}

#[test]
fn primary_function_call() {
    let mut sym_table = SymbolTable::new();
    sym_table.add_glob_fn("foo", PrimType::Int);
    let mut expr = generator("foo(42)", sym_table);
    let node = expr.primary().unwrap();
    assert!(matches!(node, AstNode::FuncCall { .. }));
    assert_eq!(node.get_type(), Some(PrimType::Int));
}

#[test]
fn primary_ident_variable() {
    // must have trailing token so maybe_token(LeftParen) doesn't hit EOF
    let mut sym_table = SymbolTable::new();
    sym_table.add_glob("x", PrimType::Int, StructuralType::Variable);
    let mut expr = generator("x;", sym_table);
    let node = expr.primary().unwrap();
    assert!(matches!(node, AstNode::Ident { .. }));
    assert_eq!(node.get_type(), Some(PrimType::Int));
}

#[test]
fn prefix_amper_creates_addr() {
    // trailing token prevents maybe_token(LeftParen) from hitting EOF
    let mut sym_table = SymbolTable::new();
    sym_table.add_glob("x", PrimType::Int, StructuralType::Variable);
    let mut expr = generator("&x;", sym_table);
    let node = expr.binexpr(0).unwrap();
    assert!(matches!(node, AstNode::Addr { .. }));
    assert_eq!(node.get_type(), Some(PrimType::IntPtr));
}

#[test]
fn prefix_star_creates_deref() {
    // trailing token prevents maybe_token(LeftParen) from hitting EOF
    let mut sym_table = SymbolTable::new();
    sym_table.add_glob("x", PrimType::IntPtr, StructuralType::Variable);
    let mut expr = generator("*x;", sym_table);
    let node = expr.binexpr(0).unwrap();
    assert!(matches!(node, AstNode::Deref { .. }));
    assert_eq!(node.get_type(), Some(PrimType::Int));
}
