//! A binary tree stored as a vector of nodes that point at each other by index.
use vstd::prelude::*;

verus! {

/// `idx` moved up by `offset`.
pub open spec fn shifted(idx: Option<usize>, offset: usize) -> Option<usize> {
    match idx {
        Some(i) => Some((i + offset) as usize),
        None => None,
    }
}

/// `idx` moved up by `offset` does not overflow.
pub open spec fn can_shift(idx: Option<usize>, offset: usize) -> bool {
    idx matches Some(i) ==> i + offset <= usize::MAX
}

/// A node that names its children by their index in the tree.
pub trait IndexableNode: Sized {
    /// The index of the left child, if any.
    spec fn spec_left(&self) -> Option<usize>;

    /// The index of the right child, if any.
    spec fn spec_right(&self) -> Option<usize>;

    /// Whether the node counts as a leaf.
    spec fn spec_is_leaf(&self) -> bool;

    /// The node with its children at `left` and `right`.
    spec fn spec_with_leaves(&self, left: Option<usize>, right: Option<usize>) -> Self;

    /// The node with its child indices moved up by `offset`.
    spec fn spec_shifted_by(&self, offset: usize) -> Self;

    fn is_leaf(&self) -> (r: bool)
        ensures
            r == self.spec_is_leaf(),
    ;

    fn get_left_index(&self) -> (r: Option<usize>)
        ensures
            r == self.spec_left(),
    ;

    fn get_right_index(&self) -> (r: Option<usize>)
        ensures
            r == self.spec_right(),
    ;

    fn set_leaves(&mut self, left: Option<usize>, right: Option<usize>)
        ensures
            *final(self) == old(self).spec_with_leaves(left, right),
            final(self).spec_left() == left,
            final(self).spec_right() == right,
    ;

    /// The node with its child indices moved up by `offset`.
    fn shift_by(self, offset: usize) -> (r: Self)
        requires
            can_shift(self.spec_left(), offset),
            can_shift(self.spec_right(), offset),
        ensures
            r == self.spec_shifted_by(offset),
            r.spec_left() == shifted(self.spec_left(), offset),
            r.spec_right() == shifted(self.spec_right(), offset),
    ;
}

/// A tree: its nodes, in the order they were added, and the index of its root.
pub struct Tree<T: IndexableNode> {
    root: usize,
    nodes: Vec<T>,
}

impl<T: IndexableNode> Tree<T> {
    /// The root is one of the nodes: every tree built by these functions.
    pub open spec fn wf(&self) -> bool {
        self.spec_root() < self.spec_nodes().len()
    }

    /// The index of the root.
    pub closed spec fn spec_root(&self) -> usize {
        self.root
    }

    /// The nodes, in the order they were added.
    pub closed spec fn spec_nodes(&self) -> Seq<T> {
        self.nodes@
    }

    /// A tree of one node, which is its root.
    pub fn new(node: T) -> (t: Tree<T>)
        ensures
            t.wf(),
            t.spec_nodes() == seq![node],
            t.spec_root() == 0,
    {
        let t = Tree { root: 0, nodes: vec![node] };
        assert(t.nodes@ =~= seq![node]);
        t
    }

    /// Whether the root is a leaf.
    pub fn is_leaf(&self) -> (r: bool)
        requires
            self.wf(),
        ensures
            r == self.spec_nodes()[self.spec_root() as int].spec_is_leaf(),
    {
        self.get_root().is_leaf()
    }

    /// Add `node` at the end; it becomes the root when `new_root` holds. Its index.
    pub fn append(&mut self, node: T, new_root: bool) -> (idx: usize)
        requires
            old(self).wf(),
        ensures
            final(self).wf(),
            idx == old(self).spec_nodes().len(),
            final(self).spec_nodes() == old(self).spec_nodes().push(node),
            final(self).spec_root() == if new_root {
                idx
            } else {
                old(self).spec_root()
            },
    {
        let idx = self.nodes.len();
        self.nodes.push(node);
        if new_root {
            self.root = idx;
        }
        idx
    }

    /// A tree whose new root is `node`, with the old root on its left and the
    /// node at `idx` on its right.
    pub fn new_root_with_right_idx(self, node: T, idx: usize) -> (t: Tree<T>)
        requires
            self.wf(),
        ensures
            t.wf(),
            t.spec_nodes().len() == self.spec_nodes().len() + 1,
            t.spec_nodes().drop_last() == self.spec_nodes(),
            t.spec_root() == self.spec_nodes().len(),
            t.spec_nodes().last() == node.spec_with_leaves(Some(self.spec_root()), Some(idx)),
            t.spec_nodes().last().spec_left() == Some(self.spec_root()),
            t.spec_nodes().last().spec_right() == Some(idx),
    {
        let ghost before = self.spec_nodes();
        let mut tree = self;
        let mut node = node;
        let old_root = tree.root;
        node.set_leaves(Some(old_root), Some(idx));
        tree.append(node, true);
        proof {
            assert(tree.spec_nodes().drop_last() =~= before);
        }
        tree
    }

    /// A tree whose new root is `node`, with the node at `idx` on its left and
    /// the old root on its right.
    pub fn new_root_with_left_idx(self, node: T, idx: usize) -> (t: Tree<T>)
        requires
            self.wf(),
        ensures
            t.wf(),
            t.spec_nodes().len() == self.spec_nodes().len() + 1,
            t.spec_nodes().drop_last() == self.spec_nodes(),
            t.spec_root() == self.spec_nodes().len(),
            t.spec_nodes().last() == node.spec_with_leaves(Some(idx), Some(self.spec_root())),
            t.spec_nodes().last().spec_left() == Some(idx),
            t.spec_nodes().last().spec_right() == Some(self.spec_root()),
    {
        let ghost before = self.spec_nodes();
        let mut tree = self;
        let mut node = node;
        let old_root = tree.root;
        node.set_leaves(Some(idx), Some(old_root));
        tree.append(node, true);
        proof {
            assert(tree.spec_nodes().drop_last() =~= before);
        }
        tree
    }

    /// The nodes of `other` after those of `self`, with their child indices
    /// moved up by the number of nodes of `self`; the root stays that of
    /// `self`. Also the new index of the root of `other`.
    pub fn concat(self, other: Tree<T>) -> (r: (Tree<T>, usize))
        requires
            self.wf(),
            other.wf(),
            self.spec_nodes().len() + other.spec_nodes().len() <= usize::MAX,
            forall|j: int|
                0 <= j < other.spec_nodes().len() ==> can_shift(
                    #[trigger] other.spec_nodes()[j].spec_left(),
                    self.spec_nodes().len() as usize,
                ) && can_shift(other.spec_nodes()[j].spec_right(), self.spec_nodes().len() as usize),
        ensures
            r.0.wf(),
            r.0.spec_root() == self.spec_root(),
            r.0.spec_nodes().len() == self.spec_nodes().len() + other.spec_nodes().len(),
            r.0.spec_nodes().take(self.spec_nodes().len() as int) == self.spec_nodes(),
            forall|j: int|
                0 <= j < other.spec_nodes().len() ==> (#[trigger] r.0.spec_nodes()[self.spec_nodes().len() + j]).spec_left()
                    == shifted(other.spec_nodes()[j].spec_left(), self.spec_nodes().len() as usize)
                    && r.0.spec_nodes()[self.spec_nodes().len() + j].spec_right() == shifted(
                    other.spec_nodes()[j].spec_right(),
                    self.spec_nodes().len() as usize,
                ),
            forall|j: int|
                0 <= j < other.spec_nodes().len() ==> #[trigger] r.0.spec_nodes()[self.spec_nodes().len() + j]
                    == other.spec_nodes()[j].spec_shifted_by(self.spec_nodes().len() as usize),
            r.1 == other.spec_root() + self.spec_nodes().len(),
    {
        let first_index = self.nodes.len();
        let other_root = other.root;
        let ghost theirs = other.nodes@;
        let Tree { root, nodes } = self;
        let Tree { root: _, nodes: rest } = other;
        let mut nodes = nodes;
        let mut rest = rest;
        let ghost mine = nodes@;
        while rest.len() > 0
            invariant
                first_index == mine.len(),
                mine.len() + theirs.len() <= usize::MAX,
                root < mine.len(),
                forall|j: int|
                    0 <= j < theirs.len() ==> can_shift(#[trigger] theirs[j].spec_left(), first_index)
                        && can_shift(theirs[j].spec_right(), first_index),
                nodes@.len() + rest@.len() == mine.len() + theirs.len(),
                nodes@.len() >= mine.len(),
                rest@ == theirs.skip(nodes@.len() - mine.len()),
                nodes@.take(mine.len() as int) == mine,
                forall|j: int|
                    0 <= j < nodes@.len() - mine.len() ==> (#[trigger] nodes@[mine.len() + j]).spec_left()
                        == shifted(theirs[j].spec_left(), first_index) && nodes@[mine.len()
                        + j].spec_right() == shifted(theirs[j].spec_right(), first_index),
                forall|j: int|
                    0 <= j < nodes@.len() - mine.len() ==> #[trigger] nodes@[mine.len() + j]
                        == theirs[j].spec_shifted_by(first_index),
            decreases rest@.len(),
        {
            let ghost k = nodes@.len() - mine.len();
            let ghost before = nodes@;
            assert(rest@[0] == theirs[k]);
            let n = rest.remove(0);
            let moved = n.shift_by(first_index);
            nodes.push(moved);
            assert(rest@ =~= theirs.skip(k + 1));
            assert(nodes@.take(mine.len() as int) =~= before.take(mine.len() as int));
            assert forall|j: int| 0 <= j < nodes@.len() - mine.len() implies (#[trigger] nodes@[mine.len()
                + j]).spec_left() == shifted(theirs[j].spec_left(), first_index) && nodes@[mine.len()
                + j].spec_right() == shifted(theirs[j].spec_right(), first_index) by {
                if j < k {
                    assert(nodes@[mine.len() + j] == before[mine.len() + j]);
                }
            }
            assert forall|j: int| 0 <= j < nodes@.len() - mine.len() implies #[trigger] nodes@[mine.len() + j]
                == theirs[j].spec_shifted_by(first_index) by {
                if j < k {
                    assert(nodes@[mine.len() + j] == before[mine.len() + j]);
                }
            }
        }
        let new_tree = Tree { root, nodes };
        (new_tree, other_root + first_index)
    }

    /// The number of nodes.
    pub fn len(&self) -> (n: usize)
        ensures
            n == self.spec_nodes().len(),
    {
        self.nodes.len()
    }

    /// The root.
    pub fn get_root(&self) -> (r: &T)
        requires
            self.wf(),
        ensures
            *r == self.spec_nodes()[self.spec_root() as int],
    {
        &self.nodes[self.root]
    }

    /// The root's left child; the root itself when it has none; `None` when
    /// the index is out of range.
    pub fn get_left(&self) -> (r: Option<&T>)
        requires
            self.wf(),
        ensures
            r == self.root_or_node(self.spec_nodes()[self.spec_root() as int].spec_left()),
    {
        self.get_root_or_node(self.nodes[self.root].get_left_index())
    }

    /// The root's right child; the root itself when it has none; `None` when
    /// the index is out of range.
    pub fn get_right(&self) -> (r: Option<&T>)
        requires
            self.wf(),
        ensures
            r == self.root_or_node(self.spec_nodes()[self.spec_root() as int].spec_right()),
    {
        self.get_root_or_node(self.nodes[self.root].get_right_index())
    }

    /// The node at `idx`, if there is one.
    pub fn get_node(&self, idx: usize) -> (r: Option<&T>)
        ensures
            r == if idx < self.spec_nodes().len() {
                Some(&self.spec_nodes()[idx as int])
            } else {
                None::<&T>
            },
    {
        if idx < self.nodes.len() {
            Some(&self.nodes[idx])
        } else {
            None
        }
    }

    /// The node that `idx` names: the root for `None`.
    pub open spec fn root_or_node(&self, idx: Option<usize>) -> Option<&T> {
        match idx {
            Some(i) => if i < self.spec_nodes().len() {
                Some(&self.spec_nodes()[i as int])
            } else {
                None
            },
            None => Some(&self.spec_nodes()[self.spec_root() as int]),
        }
    }

    /// The node at `idx`, or the root when `idx` is `None`.
    pub fn get_root_or_node(&self, idx: Option<usize>) -> (r: Option<&T>)
        requires
            self.wf(),
        ensures
            r == self.root_or_node(idx),
    {
        match idx {
            Some(num) => self.get_node(num),
            None => Some(self.get_root()),
        }
    }
}

} // verus!
