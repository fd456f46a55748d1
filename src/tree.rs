//! Binary trees of runtime words, as a host program builds them, and the IR
//! terms that carry them into a compiled program.
use vstd::prelude::*;

use crate::ir::{Term, TermV};
use crate::numeric::{u24, Number};
use crate::text::text_of;

verus! {

/// A leaf: one word.
pub struct Leaf {
    pub value: u24,
}

/// An inner node: its two subtrees.
pub struct Node {
    pub left: Option<Box<Tree>>,
    pub right: Option<Box<Tree>>,
}

/// A tree: a leaf or a node.
pub struct Tree {
    pub leaf: Option<Leaf>,
    pub node: Option<Node>,
}

/// What a tree constructor is handed: a leaf, a node or a whole tree.
pub enum TreeArg {
    Leaf(Leaf),
    Node(Node),
    Tree(Tree),
}

/// The host-side kinds of tree values.
#[derive(Clone, Copy, Debug, PartialEq, Eq, Structural)]
pub enum TreeType {
    Leaf,
    Node,
    Tree,
}

/// The host-side kinds of argument values.
#[derive(Clone, Copy, Debug, PartialEq, Eq, Structural)]
pub enum BuiltinType {
    U24,
    F32,
    I32,
    Tree,
    Leaf,
    Node,
}

/// The constructor that an inner node is built with.
pub open spec fn node_ctor() -> Seq<char> {
    "Tree/Node"@
}

/// The term of a tree: a leaf is its word, a node the constructor
/// `Tree/Node` applied to the terms of the subtrees it has. A tree that is
/// neither, or holds one, has none.
pub open spec fn tree_term(t: Tree) -> Option<TermV>
    decreases t,
{
    match t.leaf {
        Some(l) => Some(TermV::Number(Number::U24(l.value@ as u32))),
        None => match t.node {
            Some(n) => node_term(n),
            None => None,
        },
    }
}

/// The term of an inner node.
pub open spec fn node_term(n: Node) -> Option<TermV>
    decreases n,
{
    let left: Option<Seq<TermV>> = match n.left {
        None => Some(Seq::empty()),
        Some(l) => match tree_term(*l) {
            Some(x) => Some(seq![x]),
            None => None,
        },
    };
    let right: Option<Seq<TermV>> = match n.right {
        None => Some(Seq::empty()),
        Some(r) => match tree_term(*r) {
            Some(x) => Some(seq![x]),
            None => None,
        },
    };
    match (left, right) {
        (Some(a), Some(b)) => Some(TermV::Constructor(node_ctor(), a + b)),
        _ => None,
    }
}

/// The tree that a constructor argument stands for.
pub open spec fn arg_tree(a: TreeArg) -> Tree {
    match a {
        TreeArg::Leaf(l) => Tree { leaf: Some(l), node: None },
        TreeArg::Node(n) => Tree { leaf: None, node: Some(n) },
        TreeArg::Tree(t) => t,
    }
}

/// The tree kind named by a qualified host type name.
pub open spec fn tree_type_of(name: Seq<char>) -> Option<TreeType> {
    if name == "benda.Leaf"@ {
        Some(TreeType::Leaf)
    } else if name == "benda.Node"@ {
        Some(TreeType::Node)
    } else if name == "benda.Tree"@ {
        Some(TreeType::Tree)
    } else {
        None
    }
}

/// The argument kind named by a host type name.
pub open spec fn builtin_type_of(name: Seq<char>) -> Option<BuiltinType> {
    if name == "float"@ {
        Some(BuiltinType::F32)
    } else if name == "int"@ {
        Some(BuiltinType::I32)
    } else if name == "benda.u24"@ {
        Some(BuiltinType::U24)
    } else if name == "benda.Node"@ {
        Some(BuiltinType::Node)
    } else if name == "benda.Leaf"@ {
        Some(BuiltinType::Leaf)
    } else if name == "benda.Tree"@ {
        Some(BuiltinType::Tree)
    } else {
        None
    }
}

impl Leaf {
    /// A leaf holding `val`, wrapped into 24 bits.
    pub fn __new__(val: u32) -> (r: Leaf)
        ensures
            r.value@ == crate::numeric::wrap_u24(val as int),
    {
        Leaf { value: u24::new(val) }
    }

    /// The term of the leaf: its word.
    pub fn to_bend(&self) -> (r: Term)
        ensures
            r@ == TermV::Number(Number::U24(self.value@ as u32)),
    {
        Term::Number(self.value.to_bend())
    }
}

/// The tree that a constructor argument stands for.
fn into_tree(a: TreeArg) -> (r: Tree)
    ensures
        r == arg_tree(a),
{
    match a {
        TreeArg::Leaf(l) => Tree { leaf: Some(l), node: None },
        TreeArg::Node(n) => Tree { leaf: None, node: Some(n) },
        TreeArg::Tree(t) => t,
    }
}

impl Node {
    /// A node whose subtrees are the first two arguments; `None` when there
    /// are fewer than two.
    pub fn new(args: Vec<TreeArg>) -> (r: Option<Node>)
        ensures
            args@.len() < 2 ==> r is None,
            args@.len() >= 2 ==> (r matches Some(n) && n.left == Some(Box::new(arg_tree(args@[0])))
                && n.right == Some(Box::new(arg_tree(args@[1])))),
    {
        if args.len() < 2 {
            return None;
        }
        let mut args = args;
        let first = args.remove(0);
        let second = args.remove(0);
        Some(
            Node {
                left: Some(Box::new(into_tree(first))),
                right: Some(Box::new(into_tree(second))),
            },
        )
    }

    /// The term of the node, where its subtrees have terms.
    pub fn to_bend(&self) -> (r: Option<Term>)
        ensures
            match node_term(*self) {
                Some(v) => r matches Some(x) && x@ == v,
                None => r is None,
            },
        decreases self,
    {
        let left: Option<Term> = match &self.left {
            Some(t) => match t.to_bend() {
                Some(x) => Some(x),
                None => return None,
            },
            None => None,
        };
        let right: Option<Term> = match &self.right {
            Some(t) => match t.to_bend() {
                Some(x) => Some(x),
                None => return None,
            },
            None => None,
        };
        let ghost gl = left;
        let ghost gr = right;
        let mut trees: Vec<Term> = Vec::new();
        if let Some(x) = left {
            trees.push(x);
        }
        if let Some(x) = right {
            trees.push(x);
        }
        let name = text_of("Tree/Node");
        proof {
            assert(crate::ir::terms_view(Seq::<Term>::empty()) =~= Seq::<TermV>::empty());
            match (gl, gr) {
                (Some(x), Some(y)) => {
                    assert(trees@ =~= seq![x, y]);
                    crate::ir::lemma_terms_view_two(x, y);
                    assert(seq![x@] + seq![y@] =~= seq![x@, y@]);
                },
                (Some(x), None) => {
                    assert(trees@ =~= seq![x]);
                    crate::ir::lemma_terms_view_one(x);
                    assert(seq![x@] + Seq::<TermV>::empty() =~= seq![x@]);
                },
                (None, Some(y)) => {
                    assert(trees@ =~= seq![y]);
                    crate::ir::lemma_terms_view_one(y);
                    assert(Seq::<TermV>::empty() + seq![y@] =~= seq![y@]);
                },
                (None, None) => {
                    assert(trees@ =~= Seq::<Term>::empty());
                    assert(Seq::<TermV>::empty() + Seq::<TermV>::empty() =~= Seq::<TermV>::empty());
                },
            }
        }
        Some(Term::Constructor { name, args: trees })
    }
}

impl Tree {
    /// A tree from the first argument, which must be a leaf; `None`
    /// otherwise.
    pub fn new(args: Vec<TreeArg>) -> (r: Option<Tree>)
        ensures
            args@.len() > 0 && args@[0] is Leaf ==> r == Some(arg_tree(args@[0])),
            !(args@.len() > 0 && args@[0] is Leaf) ==> r is None,
    {
        if args.len() == 0 {
            return None;
        }
        let mut args = args;
        match args.remove(0) {
            TreeArg::Leaf(l) => Some(Tree { leaf: Some(l), node: None }),
            _ => None,
        }
    }

    /// A tree that is the leaf `l`.
    pub fn from_leaf(l: Leaf) -> (r: Tree)
        ensures
            r == (Tree { leaf: Some(l), node: None }),
    {
        Tree { leaf: Some(l), node: None }
    }

    /// A tree that is the node `n`.
    pub fn from_node(n: Node) -> (r: Tree)
        ensures
            r == (Tree { leaf: None, node: Some(n) }),
    {
        Tree { leaf: None, node: Some(n) }
    }

    /// The term of the tree: a leaf's word or a node's constructor.
    pub fn to_bend(&self) -> (r: Option<Term>)
        ensures
            match tree_term(*self) {
                Some(v) => r matches Some(x) && x@ == v,
                None => r is None,
            },
        decreases self,
    {
        if let Some(leaf) = &self.leaf {
            return Some(leaf.to_bend());
        }
        if let Some(node) = &self.node {
            return node.to_bend();
        }
        None
    }
}

impl TreeType {
    /// The tree kind named by a qualified host type name.
    pub fn from_name(name: &String) -> (r: Option<TreeType>)
        ensures
            r == tree_type_of(name@),
    {
        if *name == text_of("benda.Leaf") {
            Some(TreeType::Leaf)
        } else if *name == text_of("benda.Node") {
            Some(TreeType::Node)
        } else if *name == text_of("benda.Tree") {
            Some(TreeType::Tree)
        } else {
            None
        }
    }
}

impl BuiltinType {
    /// The argument kind named by a host type name.
    pub fn from_name(name: &String) -> (r: Option<BuiltinType>)
        ensures
            r == builtin_type_of(name@),
    {
        if *name == text_of("float") {
            Some(BuiltinType::F32)
        } else if *name == text_of("int") {
            Some(BuiltinType::I32)
        } else if *name == text_of("benda.u24") {
            Some(BuiltinType::U24)
        } else if *name == text_of("benda.Node") {
            Some(BuiltinType::Node)
        } else if *name == text_of("benda.Leaf") {
            Some(BuiltinType::Leaf)
        } else if *name == text_of("benda.Tree") {
            Some(BuiltinType::Tree)
        } else {
            None
        }
    }
}

} // verus!
