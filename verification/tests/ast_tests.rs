use acwj_rs::ast::{AstNode, Identifier};
use acwj_rs::scan::TokenType;
use acwj_rs::sym::PrimType;

#[test]
fn is_arith_true_for_arithmetic_ops() {
    assert!(AstNode::make_binary(TokenType::Plus, AstNode::make_intlit(5, PrimType::Int), AstNode::make_intlit(2, PrimType::Int), PrimType::Int).is_arith());
    assert!(AstNode::make_binary(TokenType::Minus, AstNode::make_intlit(5, PrimType::Int), AstNode::make_intlit(2, PrimType::Int), PrimType::Int).is_arith());
    assert!(AstNode::make_binary(TokenType::Star, AstNode::make_intlit(5, PrimType::Int), AstNode::make_intlit(2, PrimType::Int), PrimType::Int).is_arith());
    assert!(AstNode::make_binary(TokenType::Slash, AstNode::make_intlit(5, PrimType::Int), AstNode::make_intlit(2, PrimType::Int), PrimType::Int).is_arith());
}

#[test]
fn is_arith_false_for_non_arithmetic() {
    assert!(!AstNode::make_binary(TokenType::EQ, AstNode::make_intlit(5, PrimType::Int), AstNode::make_intlit(5, PrimType::Int), PrimType::Int).is_arith());
    assert!(!AstNode::make_if(AstNode::Empty, AstNode::Empty, None).is_arith());
    assert!(!AstNode::make_intlit(1, PrimType::Int).is_arith());
    assert!(!AstNode::make_while(AstNode::Empty, AstNode::Empty).is_arith());
}

#[test]
fn is_comparison_true_for_comparisons() {
    assert!(AstNode::make_binary(TokenType::EQ, AstNode::make_intlit(5, PrimType::Int), AstNode::make_intlit(5, PrimType::Int), PrimType::Int).is_comparison());
    assert!(AstNode::make_binary(TokenType::NE, AstNode::make_intlit(5, PrimType::Int), AstNode::make_intlit(5, PrimType::Int), PrimType::Int).is_comparison());
    assert!(AstNode::make_binary(TokenType::LT, AstNode::make_intlit(5, PrimType::Int), AstNode::make_intlit(5, PrimType::Int), PrimType::Int).is_comparison());
    assert!(AstNode::make_binary(TokenType::GT, AstNode::make_intlit(5, PrimType::Int), AstNode::make_intlit(5, PrimType::Int), PrimType::Int).is_comparison());
    assert!(AstNode::make_binary(TokenType::LE, AstNode::make_intlit(5, PrimType::Int), AstNode::make_intlit(5, PrimType::Int), PrimType::Int).is_comparison());
    assert!(AstNode::make_binary(TokenType::GE, AstNode::make_intlit(5, PrimType::Int), AstNode::make_intlit(5, PrimType::Int), PrimType::Int).is_comparison());
}

#[test]
fn is_comparison_false_for_non_comparisons() {
    assert!(!AstNode::make_binary(TokenType::Plus, AstNode::make_intlit(5, PrimType::Int), AstNode::make_intlit(5, PrimType::Int), PrimType::Int).is_comparison());
    assert!(!AstNode::make_while(AstNode::Empty, AstNode::Empty).is_comparison());
    assert!(!AstNode::make_intlit(0, PrimType::Int).is_comparison());
}

#[test]
fn is_branching_stmt_true_for_if_and_while() {
    assert!(AstNode::make_if(AstNode::Empty, AstNode::Empty, None).is_branching_stmt());
    assert!(AstNode::make_while(AstNode::Empty, AstNode::Empty).is_branching_stmt());
}

#[test]
fn is_branching_stmt_false_for_others() {
    assert!(!AstNode::make_binary(TokenType::Plus, AstNode::make_intlit(5, PrimType::Int), AstNode::make_intlit(5, PrimType::Int), PrimType::Int).is_branching_stmt());
    assert!(!AstNode::make_binary(TokenType::EQ, AstNode::make_intlit(5, PrimType::Int), AstNode::make_intlit(5, PrimType::Int), PrimType::Int).is_branching_stmt());
    assert!(!AstNode::make_intlit(5, PrimType::Int).is_branching_stmt());
}

#[test]
fn identifier_new_stores_name() {
    let id = Identifier::new("foo");
    assert_eq!(id.name, "foo");
}

#[test]
fn make_ident_creates_ident_variant() {
    let node = AstNode::make_ident("x", PrimType::Int);
    assert!(matches!(node, AstNode::Ident { id: Identifier { name }, dtype: PrimType::Int } if name == "x"));
}

#[test]
fn make_lvident_creates_lvident_variant() {
    let node = AstNode::make_lvident("y", PrimType::Int);
    assert!(matches!(node, AstNode::LvIdent { id: Identifier { name }, dtype: PrimType::Int } if name == "y"));
}

#[test]
fn make_binary_plus_creates_add() {
    let node = AstNode::make_binary(TokenType::Plus, AstNode::make_intlit(1, PrimType::Int), AstNode::make_intlit(2, PrimType::Int), PrimType::Int);
    assert!(matches!(node, AstNode::Add { left, right, dtype: PrimType::Int }
        if *left == AstNode::make_intlit(1, PrimType::Int) && *right == AstNode::make_intlit(2, PrimType::Int)));
}

#[test]
fn make_binary_minus_creates_subtract() {
    let node = AstNode::make_binary(TokenType::Minus, AstNode::make_intlit(1, PrimType::Int), AstNode::make_intlit(2, PrimType::Int), PrimType::Int);
    assert!(matches!(node, AstNode::Subtract { left, right, dtype: PrimType::Int }
        if *left == AstNode::make_intlit(1, PrimType::Int) && *right == AstNode::make_intlit(2, PrimType::Int)));
}

#[test]
fn make_binary_star_creates_multiply() {
    let node = AstNode::make_binary(TokenType::Star, AstNode::make_intlit(1, PrimType::Int), AstNode::make_intlit(2, PrimType::Int), PrimType::Int);
    assert!(matches!(node, AstNode::Multiply { left, right, dtype: PrimType::Int }
        if *left == AstNode::make_intlit(1, PrimType::Int) && *right == AstNode::make_intlit(2, PrimType::Int)));
}

#[test]
fn make_binary_slash_creates_divide() {
    let node = AstNode::make_binary(TokenType::Slash, AstNode::make_intlit(8, PrimType::Int), AstNode::make_intlit(2, PrimType::Int), PrimType::Int);
    assert!(matches!(node, AstNode::Divide { left, right, dtype: PrimType::Int }
        if *left == AstNode::make_intlit(8, PrimType::Int) && *right == AstNode::make_intlit(2, PrimType::Int)));
}

#[test]
fn make_binary_eq_creates_equal() {
    let node = AstNode::make_binary(TokenType::EQ, AstNode::make_intlit(1, PrimType::Int), AstNode::make_intlit(2, PrimType::Int), PrimType::Int);
    assert!(matches!(node, AstNode::Equal { .. }));
}

#[test]
fn make_binary_ne_creates_notequal() {
    let node = AstNode::make_binary(TokenType::NE, AstNode::make_intlit(1, PrimType::Int), AstNode::make_intlit(2, PrimType::Int), PrimType::Int);
    assert!(matches!(node, AstNode::NotEqual { .. }));
}

#[test]
fn make_binary_lt_creates_lessthan() {
    let node = AstNode::make_binary(TokenType::LT, AstNode::make_intlit(1, PrimType::Int), AstNode::make_intlit(2, PrimType::Int), PrimType::Int);
    assert!(matches!(node, AstNode::LessThan { .. }));
}

#[test]
fn make_binary_gt_creates_greaterthan() {
    let node = AstNode::make_binary(TokenType::GT, AstNode::make_intlit(1, PrimType::Int), AstNode::make_intlit(2, PrimType::Int), PrimType::Int);
    assert!(matches!(node, AstNode::GreaterThan { .. }));
}

#[test]
fn make_binary_le_creates_lessorequal() {
    let node = AstNode::make_binary(TokenType::LE, AstNode::make_intlit(1, PrimType::Int), AstNode::make_intlit(2, PrimType::Int), PrimType::Int);
    assert!(matches!(node, AstNode::LessThanOrEqual { .. }));
}

#[test]
fn make_binary_ge_creates_greaterorequal() {
    let node = AstNode::make_binary(TokenType::GE, AstNode::make_intlit(1, PrimType::Int), AstNode::make_intlit(2, PrimType::Int), PrimType::Int);
    assert!(matches!(node, AstNode::GreaterThanOrEqual { .. }));
}

#[test]
fn make_global_declaration_creates_globaldec() {
    let d = PrimType::Void;
    let node = AstNode::make_global_declaration("g", d);
    assert!(matches!(&node, AstNode::GlobalDec { id, dtype: d } if id.name == "g"));
}

#[test]
fn make_function_creates_function_node() {
    let name = AstNode::make_ident("main", PrimType::Void);
    let body = AstNode::make_glue(AstNode::Empty, AstNode::Empty);
    let node = AstNode::make_function(name, body);
    assert!(matches!(&node, AstNode::Function { .. }));
}

#[test]
fn make_assign_creates_assign_node() {
    let id = AstNode::make_lvident("x", PrimType::Int);
    let expr = AstNode::make_intlit(10, PrimType::Int);
    let node = AstNode::make_assign(id, expr);
    assert!(matches!(&node, AstNode::Assign { .. }));
}

#[test]
fn make_if_without_else_branch() {
    let node = AstNode::make_if(AstNode::make_intlit(1, PrimType::Int), AstNode::Empty, None);
    assert!(matches!(&node, AstNode::If { branch_f: None, .. }));
}

#[test]
fn make_if_with_else_branch() {
    let node = AstNode::make_if(AstNode::make_intlit(1, PrimType::Int), AstNode::Empty, Some(AstNode::Empty));
    assert!(matches!(&node, AstNode::If { branch_f: Some(..), .. }));
}

#[test]
fn make_while_creates_while_node() {
    let node = AstNode::make_while(AstNode::make_intlit(1, PrimType::Int), AstNode::Empty);
    assert!(matches!(&node, AstNode::While { .. }));
}

#[test]
fn make_glue_creates_glue_node() {
    let node = AstNode::make_glue(AstNode::make_intlit(1, PrimType::Int), AstNode::make_intlit(2, PrimType::Int));
    assert!(matches!(node, AstNode::Glue { left, right }
        if left == Box::new(AstNode::make_intlit(1, PrimType::Int)) && right == Box::new(AstNode::make_intlit(2, PrimType::Int))));
}

#[test]
fn ast_node_debug_contains_variant_name() {
    let s = format!("{:?}", AstNode::make_intlit(7, PrimType::Int));
    assert!(s.contains("IntLit"));
}

#[test]
fn ast_node_partial_eq() {
    assert_eq!(AstNode::make_intlit(3, PrimType::Int), AstNode::make_intlit(3, PrimType::Int));
    assert_ne!(AstNode::make_intlit(3, PrimType::Int), AstNode::make_intlit(4, PrimType::Int));
}

#[test]
fn make_function_call_creates_funccall() {
    let node = AstNode::make_function_call("foo", AstNode::make_intlit(42, PrimType::Int), PrimType::Void);
    assert!(matches!(&node, AstNode::FuncCall { id, dtype: PrimType::Void, .. } if id.name == "foo"));
}

#[test]
fn make_return_creates_return_node() {
    let node = AstNode::make_return("foo", AstNode::make_intlit(7, PrimType::Int));
    assert!(matches!(&node, AstNode::Return { id, expr } if id.name == "foo"));
}

#[test]
fn into_pointer_ident_creates_addr() {
    let id = AstNode::make_ident("x", PrimType::Int);
    let addr = id.into_pointer();
    assert!(matches!(&addr, AstNode::Addr { id: Identifier { name }, dtype: PrimType::IntPtr } if name == "x"));
}

#[test]
fn make_deref_ident_creates_deref() {
    let id = AstNode::make_ident("p", PrimType::IntPtr);
    let deref = id.make_deref();
    assert!(matches!(&deref, AstNode::Deref { dtype: PrimType::Int, .. }));
}

#[test]
fn new_type_intlit_changes_type() {
    let node = AstNode::make_intlit(42, PrimType::Char).new_type(PrimType::Long);
    assert_eq!(node.get_type(), Some(PrimType::Long));
}

#[test]
fn new_type_ident_changes_type() {
    let node = AstNode::make_ident("x", PrimType::Char).new_type(PrimType::Int);
    assert_eq!(node.get_type(), Some(PrimType::Int));
}

#[test]
fn new_type_binary_changes_type() {
    let node = AstNode::make_binary(TokenType::Plus, AstNode::make_intlit(1, PrimType::Char), AstNode::make_intlit(2, PrimType::Int), PrimType::Char).new_type(PrimType::Int);
    assert_eq!(node.get_type(), Some(PrimType::Int));
}

#[test]
fn get_type_addr_returns_type() {
    let id = AstNode::make_ident("x", PrimType::Int);
    let addr = id.into_pointer();
    assert_eq!(addr.get_type(), Some(PrimType::IntPtr));
}

#[test]
fn get_type_deref_returns_type() {
    let id = AstNode::make_ident("p", PrimType::IntPtr);
    let deref = id.make_deref();
    assert_eq!(deref.get_type(), Some(PrimType::Int));
}

#[test]
fn get_type_funccall_returns_type() {
    let node = AstNode::make_function_call("foo", AstNode::make_intlit(1, PrimType::Int), PrimType::Void);
    assert_eq!(node.get_type(), Some(PrimType::Void));
}

#[test]
fn get_type_empty_returns_none() {
    assert_eq!(AstNode::Empty.get_type(), None);
}

#[test]
fn get_type_function_returns_none() {
    assert_eq!(AstNode::make_function(AstNode::make_ident("f", PrimType::Void), AstNode::Empty).get_type(), None);
}

#[test]
fn get_type_assign_returns_none() {
    assert_eq!(AstNode::make_assign(AstNode::make_lvident("x", PrimType::Int), AstNode::make_intlit(5, PrimType::Int)).get_type(), None);
}

#[test]
fn get_type_if_returns_none() {
    assert_eq!(AstNode::make_if(AstNode::make_intlit(1, PrimType::Int), AstNode::Empty, None).get_type(), None);
}

#[test]
fn get_type_while_returns_none() {
    assert_eq!(AstNode::make_while(AstNode::make_intlit(1, PrimType::Int), AstNode::Empty).get_type(), None);
}

#[test]
fn get_type_glue_returns_none() {
    assert_eq!(AstNode::make_glue(AstNode::Empty, AstNode::Empty).get_type(), None);
}

#[test]
fn get_type_return_returns_none() {
    assert_eq!(AstNode::make_return("f", AstNode::make_intlit(1, PrimType::Int)).get_type(), None);
}

#[test]
fn get_type_globaldec_returns_none() {
    assert_eq!(AstNode::make_global_declaration("x", PrimType::Int).get_type(), None);
}
