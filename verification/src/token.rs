//! Tokens: the values the parser reads.

use vstd::prelude::*;
use crate::tree::{leaf, NodeView, ParsingTreeNode};

verus! {

/// Anything that can show itself as a leaf of the parse tree.
///
/// Implementations promise that `to_tree_node` returns the leaf made of
/// `symbol()` and `text()`; the parser's contracts rest on that promise.
pub trait Token: Clone {
    /// The grammar symbol of the token.
    spec fn symbol(&self) -> Seq<char>;

    /// The lexical text of the token.
    spec fn text(&self) -> Seq<char>;

    /// The token as a childless tree node.
    fn to_tree_node(&self) -> (node: ParsingTreeNode)
        ensures
            node@ == leaf(self.symbol(), self.text()),
    ;
}

/// The leaves that a sequence of tokens stands for, in order.
pub open spec fn token_leaves<T: Token>(tokens: Seq<T>) -> Seq<NodeView> {
    Seq::new(tokens.len(), |i: int| leaf(tokens[i].symbol(), tokens[i].text()))
}

/// A plain token: a symbol and its text.
#[derive(Clone, Debug)]
pub struct MyToken {
    pub symbol_type: String,
    pub data: String,
}

impl MyToken {
    /// Builds a token from its symbol and its text.
    pub fn build(symbol_type: String, data: String) -> (token: Self)
        ensures
            token.symbol_type == symbol_type,
            token.data == data,
    {
        MyToken { symbol_type, data }
    }
}

impl Token for MyToken {
    open spec fn symbol(&self) -> Seq<char> {
        self.symbol_type@
    }

    open spec fn text(&self) -> Seq<char> {
        self.data@
    }

    fn to_tree_node(&self) -> (node: ParsingTreeNode) {
        let node = ParsingTreeNode::build(self.symbol_type.clone(), self.data.clone(), Vec::new());
        assert(node@.children =~= Seq::empty());
        node
    }
}

} // verus!
