//! An interpreter for arithmetic trees stored in a `Tree`.
use vstd::prelude::*;
use crate::error::{CompileError, ErrorKind};
use crate::tree::{shifted, IndexableNode, Tree};

verus! {

/// The operators of an arithmetic tree.
#[derive(Clone, Copy, Debug, PartialEq, Eq, Structural)]
pub enum Ast {
    IntLit(i64),
    Add,
    Subtract,
    Multiply,
    Divide,
}

/// A node of an arithmetic tree: an operator and the indices of its operands.
#[derive(Clone, Copy, Debug, PartialEq, Eq, Structural)]
pub struct TreeNode {
    pub op: Ast,
    pub left: Option<usize>,
    pub right: Option<usize>,
}

impl TreeNode {
    /// A node with operator `op` and the operands at `left` and `right`.
    pub fn new(op: Ast, left: Option<usize>, right: Option<usize>) -> (n: TreeNode)
        ensures
            n == (TreeNode { op, left, right }),
    {
        TreeNode { op, left, right }
    }

    /// A node without operands.
    pub fn make_leaf(op: Ast) -> (n: TreeNode)
        ensures
            n == (TreeNode { op, left: None, right: None }),
    {
        TreeNode { op, left: None, right: None }
    }
}

fn shift_index(idx: Option<usize>, offset: usize) -> (r: Option<usize>)
    requires
        crate::tree::can_shift(idx, offset),
    ensures
        r == shifted(idx, offset),
{
    match idx {
        Some(i) => Some(i + offset),
        None => None,
    }
}

impl IndexableNode for TreeNode {
    open spec fn spec_left(&self) -> Option<usize> {
        self.left
    }

    open spec fn spec_right(&self) -> Option<usize> {
        self.right
    }

    open spec fn spec_is_leaf(&self) -> bool {
        self.left is None && self.right is None
    }

    open spec fn spec_with_leaves(&self, left: Option<usize>, right: Option<usize>) -> TreeNode {
        TreeNode { op: self.op, left, right }
    }

    open spec fn spec_shifted_by(&self, offset: usize) -> TreeNode {
        TreeNode { op: self.op, left: shifted(self.left, offset), right: shifted(self.right, offset) }
    }

    fn is_leaf(&self) -> (r: bool) {
        self.left.is_none() && self.right.is_none()
    }

    fn get_left_index(&self) -> (r: Option<usize>) {
        self.left
    }

    fn get_right_index(&self) -> (r: Option<usize>) {
        self.right
    }

    fn set_leaves(&mut self, left: Option<usize>, right: Option<usize>)
        ensures
            final(self).op == old(self).op,
    {
        self.left = left;
        self.right = right;
    }

    fn shift_by(self, offset: usize) -> (r: TreeNode)
        ensures
            r.op == self.op,
    {
        TreeNode { op: self.op, left: shift_index(self.left, offset), right: shift_index(self.right, offset) }
    }
}

/// Division that rounds towards zero.
pub open spec fn trunc_div(x: int, d: int) -> int {
    let q = (if x < 0 {
        -x
    } else {
        x
    }) / (if d < 0 {
        -d
    } else {
        d
    });
    if (x < 0) == (d < 0) {
        q
    } else {
        -q
    }
}

/// An `i64` result, or overflow.
pub open spec fn fit(v: int) -> Result<i64, ErrorKind> {
    if i64::MIN <= v <= i64::MAX {
        Ok(v as i64)
    } else {
        Err(ErrorKind::IntegerOverflow)
    }
}

/// The operator `op` applied to `l` and `r`.
pub open spec fn apply(op: Ast, l: i64, r: i64) -> Result<i64, ErrorKind> {
    match op {
        Ast::IntLit(v) => Ok(v),
        Ast::Add => fit(l + r),
        Ast::Subtract => fit(l - r),
        Ast::Multiply => fit(l * r),
        Ast::Divide => if r == 0 {
            Err(ErrorKind::DivisionByZero)
        } else {
            fit(trunc_div(l as int, r as int))
        },
    }
}

/// The value of the node that `idx` names (the root for `None`), looking at
/// most `fuel` nodes deep: a literal is its value, an operator applies to the
/// values of its operands; a missing operand stands for the root.
pub open spec fn eval(nodes: Seq<TreeNode>, root: usize, idx: Option<usize>, fuel: nat) -> Result<i64, ErrorKind>
    decreases fuel,
{
    let i: int = match idx {
        Some(k) => k as int,
        None => root as int,
    };
    if fuel == 0 || i >= nodes.len() {
        Err(ErrorKind::InvalidTree)
    } else {
        match nodes[i].op {
            Ast::IntLit(v) => Ok(v),
            op => match eval(nodes, root, nodes[i].left, (fuel - 1) as nat) {
                Err(e) => Err(e),
                Ok(l) => match eval(nodes, root, nodes[i].right, (fuel - 1) as nat) {
                    Err(e) => Err(e),
                    Ok(r) => apply(op, l, r),
                },
            },
        }
    }
}

/// A result with the error located at no line.
pub open spec fn located(r: Result<i64, ErrorKind>) -> Result<i64, CompileError> {
    match r {
        Ok(v) => Ok(v),
        Err(kind) => Err(CompileError { kind, line: 0 }),
    }
}

fn apply_op(op: Ast, l: i64, r: i64) -> (res: Result<i64, CompileError>)
    ensures
        res == located(apply(op, l, r)),
{
    let v = match op {
        Ast::IntLit(v) => Some(v),
        Ast::Add => l.checked_add(r),
        Ast::Subtract => l.checked_sub(r),
        Ast::Multiply => l.checked_mul(r),
        Ast::Divide => {
            if r == 0 {
                return Err(CompileError { kind: ErrorKind::DivisionByZero, line: 0 });
            }
            l.checked_div(r)
        },
    };
    match v {
        Some(x) => Ok(x),
        None => Err(CompileError { kind: ErrorKind::IntegerOverflow, line: 0 }),
    }
}

fn interpret_within(tree: &Tree<TreeNode>, idx: Option<usize>, fuel: usize) -> (r: Result<i64, CompileError>)
    requires
        tree.wf(),
    ensures
        r == located(eval(tree.spec_nodes(), tree.spec_root(), idx, fuel as nat)),
    decreases fuel,
{
    if fuel == 0 {
        return Err(CompileError { kind: ErrorKind::InvalidTree, line: 0 });
    }
    let node = match tree.get_root_or_node(idx) {
        Some(n) => n,
        None => return Err(CompileError { kind: ErrorKind::InvalidTree, line: 0 }),
    };
    match node.op {
        Ast::IntLit(v) => Ok(v),
        op => {
            let l = match interpret_within(tree, node.left, fuel - 1) {
                Ok(v) => v,
                Err(e) => return Err(e),
            };
            let r = match interpret_within(tree, node.right, fuel - 1) {
                Ok(v) => v,
                Err(e) => return Err(e),
            };
            apply_op(op, l, r)
        },
    }
}

/// The value of the node that `idx` names (the root for `None`). A path
/// longer than the tree has nodes goes round a cycle and is an error, as is
/// an index out of range, an overflow or a division by zero.
pub fn interpret_ast(tree: &Tree<TreeNode>, idx: Option<usize>) -> (r: Result<i64, CompileError>)
    requires
        tree.wf(),
    ensures
        r == located(eval(tree.spec_nodes(), tree.spec_root(), idx, tree.spec_nodes().len())),
{
    interpret_within(tree, idx, tree.len())
}

} // verus!
