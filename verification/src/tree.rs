//! Parse tree nodes and the frames of the parse stack.

use vstd::prelude::*;

verus! {

/// The mathematical value of a parse tree: a symbol, the synthesized data
/// and the ordered children.
pub struct NodeView {
    pub symbol: Seq<char>,
    pub data: Seq<char>,
    pub children: Seq<NodeView>,
}

/// A node of the parse tree, used for terminals and nonterminals alike.
#[derive(Debug, PartialEq, Eq)]
pub struct ParsingTreeNode {
    pub symbol_type: String,
    pub data: String,
    pub children: Vec<ParsingTreeNode>,
}

impl View for ParsingTreeNode {
    type V = NodeView;

    open spec fn view(&self) -> NodeView
        decreases self,
    {
        NodeView {
            symbol: self.symbol_type@,
            data: self.data@,
            children: Seq::new(
                self.children@.len(),
                |i: int|
                    if 0 <= i < self.children@.len() {
                        self.children@[i].view()
                    } else {
                        leaf(Seq::empty(), Seq::empty())
                    },
            ),
        }
    }
}

/// The tree with no children that carries `symbol` and `data`.
pub open spec fn leaf(symbol: Seq<char>, data: Seq<char>) -> NodeView {
    NodeView { symbol, data, children: Seq::empty() }
}

/// The values of a sequence of nodes, in order.
pub open spec fn node_views(nodes: Seq<ParsingTreeNode>) -> Seq<NodeView> {
    Seq::new(nodes.len(), |i: int| nodes[i]@)
}

/// The data of each tree of a sequence, in order.
pub open spec fn data_of(nodes: Seq<NodeView>) -> Seq<Seq<char>> {
    Seq::new(nodes.len(), |i: int| nodes[i].data)
}

/// The contents of a sequence of strings, in order.
pub open spec fn texts(strings: Seq<String>) -> Seq<Seq<char>> {
    Seq::new(strings.len(), |i: int| strings[i]@)
}

/// A node's children, as values, are the values of its child nodes.
pub proof fn lemma_children_view(node: &ParsingTreeNode)
    ensures
        node@.children == node_views(node.children@),
        node@.symbol == node.symbol_type@,
        node@.data == node.data@,
{
    assert(node@.children =~= node_views(node.children@));
}

impl ParsingTreeNode {
    /// Builds a node from its three parts.
    pub fn build(symbol_type: String, data: String, children: Vec<ParsingTreeNode>) -> (node: Self)
        ensures
            node@ == (NodeView {
                symbol: symbol_type@,
                data: data@,
                children: node_views(children@),
            }),
            node.symbol_type == symbol_type,
            node.data == data,
            node.children == children,
    {
        let node = ParsingTreeNode { symbol_type, data, children };
        proof {
            lemma_children_view(&node);
        }
        node
    }
}

/// The mathematical value of a stack frame.
pub struct FrameView {
    pub node: NodeView,
    pub state: usize,
}

/// A frame of the parse stack: a node and the automaton state reached after
/// pushing it.
#[derive(Debug)]
pub struct NodePair(pub ParsingTreeNode, pub usize);

impl View for NodePair {
    type V = FrameView;

    open spec fn view(&self) -> FrameView {
        FrameView { node: self.0@, state: self.1 }
    }
}

impl NodePair {
    /// Pairs a node with a state.
    pub fn new(node: ParsingTreeNode, state: usize) -> (pair: Self)
        ensures
            pair@ == (FrameView { node: node@, state }),
            pair.0 == node,
            pair.1 == state,
    {
        NodePair(node, state)
    }
}

/// The values of a sequence of frames, in order.
pub open spec fn frame_views(frames: Seq<NodePair>) -> Seq<FrameView> {
    Seq::new(frames.len(), |i: int| frames[i]@)
}

/// The trees held by a sequence of frames, in order.
pub open spec fn frame_nodes(frames: Seq<FrameView>) -> Seq<NodeView> {
    Seq::new(frames.len(), |i: int| frames[i].node)
}

} // verus!
