use acwj_rs::error::ErrorKind;
use acwj_rs::interp::{interpret_ast, Ast, TreeNode};
use acwj_rs::tree::Tree;

fn intlit_tree(val: i64) -> Tree<TreeNode> {
    Tree::new(TreeNode::make_leaf(Ast::IntLit(val)))
}

fn binop_tree(op: Ast, left_val: i64, right_val: i64) -> Tree<TreeNode> {
    let mut tree = Tree::new(TreeNode::make_leaf(Ast::IntLit(left_val))); // idx 0
    let right_idx = tree.append(TreeNode::make_leaf(Ast::IntLit(right_val)), false); // idx 1
    tree.append(TreeNode::new(op, Some(0), Some(right_idx)), true);       // idx 2, root
    tree
}

#[test]
fn interpret_intlit_returns_value() {
    assert_eq!(interpret_ast(&intlit_tree(42), None).unwrap(), 42);
}

#[test]
fn interpret_add() {
    assert_eq!(interpret_ast(&binop_tree(Ast::Add, 3, 5), None).unwrap(), 8);
}

#[test]
fn interpret_subtract() {
    assert_eq!(interpret_ast(&binop_tree(Ast::Subtract, 10, 4), None).unwrap(), 6);
}

#[test]
fn interpret_multiply() {
    assert_eq!(interpret_ast(&binop_tree(Ast::Multiply, 6, 7), None).unwrap(), 42);
}

#[test]
fn interpret_divide() {
    assert_eq!(interpret_ast(&binop_tree(Ast::Divide, 15, 3), None).unwrap(), 5);
}

#[test]
fn interpret_nested_expression() {
    // (2 * 3) + 4 = 10
    let mut tree = Tree::new(TreeNode::make_leaf(Ast::IntLit(2)));                  // idx 0
    let idx3 = tree.append(TreeNode::make_leaf(Ast::IntLit(3)), false);             // idx 1
    let mul  = tree.append(TreeNode::new(Ast::Multiply, Some(0), Some(idx3)), false); // idx 2
    let idx4 = tree.append(TreeNode::make_leaf(Ast::IntLit(4)), false);             // idx 3
    tree.append(TreeNode::new(Ast::Add, Some(mul), Some(idx4)), true);              // idx 4, root

    assert_eq!(interpret_ast(&tree, None).unwrap(), 10);
}

#[test]
fn interpret_with_node_index_evaluates_subtree() {
    let tree = binop_tree(Ast::Add, 3, 5); // root is Add, idx 0 is IntLit(3)
    assert_eq!(interpret_ast(&tree, Some(0)).unwrap(), 3);
}

#[test]
fn interpret_invalid_index_returns_error() {
    let tree = intlit_tree(1);
    assert!(interpret_ast(&tree, Some(999)).is_err());
}

#[test]
fn interpret_divide_rounds_towards_zero() {
    assert_eq!(interpret_ast(&binop_tree(Ast::Divide, -7, 2), None).unwrap(), -3);
    assert_eq!(interpret_ast(&binop_tree(Ast::Divide, 7, -2), None).unwrap(), -3);
    assert_eq!(interpret_ast(&binop_tree(Ast::Divide, -7, -2), None).unwrap(), 3);
}

#[test]
fn interpret_division_by_zero_is_an_error() {
    let err = interpret_ast(&binop_tree(Ast::Divide, 1, 0), None).unwrap_err();
    assert_eq!(err.kind, ErrorKind::DivisionByZero);
}

#[test]
fn interpret_overflow_is_an_error() {
    let err = interpret_ast(&binop_tree(Ast::Add, i64::MAX, 1), None).unwrap_err();
    assert_eq!(err.kind, ErrorKind::IntegerOverflow);
    let err = interpret_ast(&binop_tree(Ast::Divide, i64::MIN, -1), None).unwrap_err();
    assert_eq!(err.kind, ErrorKind::IntegerOverflow);
}

#[test]
fn interpret_cycle_is_an_error() {
    // The root names itself as an operand: the walk never reaches a literal.
    let mut tree = Tree::new(TreeNode::make_leaf(Ast::IntLit(1)));
    tree.append(TreeNode::new(Ast::Add, None, Some(0)), true);
    assert_eq!(interpret_ast(&tree, None).unwrap_err().kind, ErrorKind::InvalidTree);
}
