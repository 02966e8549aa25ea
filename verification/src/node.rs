//! The syntax tree: a node is a composite with ordered children or a leaf
//! that carries one token.

use vstd::prelude::*;
use crate::token::{Token, TokenView};

verus! {

/// A node of the syntax tree: the label of its kind, the token that a leaf
/// carries, and the children of a composite.
#[derive(Debug, PartialEq, Eq)]
pub struct Node {
    name: String,
    token: Option<Token>,
    children: Vec<Node>,
}

/// What a `Node` stands for in contracts.
pub struct NodeView {
    pub name: Seq<char>,
    pub token: Option<TokenView>,
    pub children: Seq<NodeView>,
}

impl NodeView {
    /// A composite node without children.
    pub open spec fn empty(name: Seq<char>) -> NodeView {
        NodeView { name, token: None, children: Seq::empty() }
    }

    /// A composite node with the given children.
    pub open spec fn composite(name: Seq<char>, children: Seq<NodeView>) -> NodeView {
        NodeView { name, token: None, children }
    }

    /// A leaf that carries `token`.
    pub open spec fn leaf(token: TokenView) -> NodeView {
        NodeView { name: "literal"@, token: Some(token), children: Seq::empty() }
    }

    /// A node is a composite or a leaf, never both: one that carries a token
    /// has no children. The same holds of every node below it.
    pub open spec fn wf(self) -> bool
        decreases self,
    {
        &&& self.token is Some ==> self.children.len() == 0
        &&& forall|i: int| 0 <= i < self.children.len() ==> (#[trigger] self.children[i]).wf()
    }
}

/// Whether every node of `nodes` is well formed.
pub open spec fn all_wf(nodes: Seq<NodeView>) -> bool {
    forall|i: int| 0 <= i < nodes.len() ==> (#[trigger] nodes[i]).wf()
}

/// The views of a sequence of nodes, one by one.
pub open spec fn node_views(nodes: Seq<Node>) -> Seq<NodeView> {
    nodes.map_values(|n: Node| n@)
}

impl View for Node {
    type V = NodeView;

    closed spec fn view(&self) -> NodeView {
        self.model()
    }
}

impl Node {
    spec fn model(&self) -> NodeView
        decreases self,
    {
        NodeView {
            name: self.name@,
            token: match self.token {
                Some(t) => Some(t@),
                None => None,
            },
            children: Seq::new(
                self.children@.len(),
                |i: int|
                    if 0 <= i < self.children@.len() {
                        self.children@[i].model()
                    } else {
                        NodeView::empty(Seq::empty())
                    },
            ),
        }
    }

    /// The view, field by field.
    proof fn view_unfolded(&self)
        ensures
            self@.name == self.name@,
            self@.token == match self.token {
                Some(t) => Some(t@),
                None => None,
            },
            self@.children.len() == self.children@.len(),
            forall|i: int|
                0 <= i < self.children@.len() ==> #[trigger] self@.children[i]
                    == self.children@[i]@,
    {
    }

    /// A composite node named `name`, without children.
    pub fn new(name: String) -> (n: Node)
        ensures
            n@ == NodeView::empty(name@),
            n@.wf(),
    {
        let n = Node { name, token: None, children: Vec::new() };
        assert(n@.children =~= Seq::empty());
        n
    }

    /// A leaf that carries `token`.
    pub fn leaf(token: Token) -> (n: Node)
        ensures
            n@ == NodeView::leaf(token@),
            n@.wf(),
    {
        let n = Node { name: "literal".to_owned(), token: Some(token), children: Vec::new() };
        assert(n@.children =~= Seq::empty());
        n
    }

    /// The label of the node's kind.
    pub fn name(&self) -> (name: &String)
        ensures
            name@ == self@.name,
    {
        &self.name
    }

    /// The token that a leaf carries.
    pub fn token(&self) -> (token: &Option<Token>)
        ensures
            self@.token == match token {
                Some(t) => Some(t@),
                None => None,
            },
    {
        &self.token
    }

    /// The children, in order.
    pub fn children(&self) -> (children: &Vec<Node>)
        ensures
            node_views(children@) == self@.children,
    {
        proof {
            self.view_unfolded();
            assert(node_views(self.children@) =~= self@.children);
        }
        &self.children
    }

    /// Appends `node` as the last child.
    pub fn add(&mut self, node: Node)
        ensures
            final(self)@.name == old(self)@.name,
            final(self)@.token == old(self)@.token,
            final(self)@.children == old(self)@.children.push(node@),
            old(self)@.wf() && old(self)@.token is None && node@.wf() ==> final(self)@.wf(),
    {
        self.children.push(node);
        proof {
            self.view_unfolded();
            old(self).view_unfolded();
        }
        assert(self@.children =~= old(self)@.children.push(node@));
    }
}

} // verus!
