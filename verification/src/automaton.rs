//! The shift-reduce automaton as a mathematical function: configurations,
//! one step, and a run of bounded length.

use vstd::prelude::*;
use crate::error::ErrorView;
use crate::handler::{value_of, HandlerRegistry};
use crate::table::{lookup, ActionView, DerivationView};
use crate::tree::{data_of, frame_nodes, leaf, FrameView, NodeView};

verus! {

/// The symbol of the token that ends every input.
pub const END_SYMBOL: &'static str = "__$__";

/// The symbol that stands for the empty word. The automaton gives it no
/// meaning; it is kept for those who build tables.
pub const EPSILON_SYMBOL: &'static str = "__EPSILON__";

/// The nonterminal that wraps the grammar's start symbol.
pub const DUMMY_START_SYMBOL: &'static str = "__DUMMY_START__";

/// The action table as a mathematical value.
pub type TableView = Seq<Map<Seq<char>, ActionView>>;

/// What a parse ends in.
pub type Outcome = Result<NodeView, ErrorView>;

/// A configuration of the automaton: the stack, bottom first, and the number
/// of tokens consumed.
pub struct Config {
    pub stack: Seq<FrameView>,
    pub pos: int,
}

/// What one step of the automaton leads to.
pub enum Step {
    /// The automaton goes on from the given configuration.
    Next(Config),
    /// The automaton stops with the given outcome.
    Done(Outcome),
}

/// The frame at the bottom of every stack at the start.
pub open spec fn bottom_frame() -> FrameView {
    FrameView { node: leaf(DUMMY_START_SYMBOL@, Seq::empty()), state: 0 }
}

/// The configuration in which every parse starts.
pub open spec fn start_config() -> Config {
    Config { stack: seq![bottom_frame()], pos: 0 }
}

/// The state that a reduction to `left` leads to, over the frames `rest`
/// that it left on the stack. The wrapper of the start symbol always leads
/// back to state 0; any other symbol follows the shift that the table holds
/// for it in the state on top of `rest`.
pub open spec fn goto_target(table: TableView, rest: Seq<FrameView>, left: Seq<char>) -> Option<
    usize,
> {
    if left == DUMMY_START_SYMBOL@ {
        Some(0)
    } else if rest.len() == 0 {
        None
    } else {
        match lookup(table, rest.last().state, left) {
            Some(ActionView::Shift(next)) => Some(next),
            _ => None,
        }
    }
}

/// The node that a reduction by `derivation` builds from the frames that it
/// pops, given the data that the handler returned.
pub open spec fn reduced_node(derivation: DerivationView, popped: Seq<FrameView>, data: Seq<char>)
    -> NodeView {
    NodeView { symbol: derivation.left, data, children: frame_nodes(popped) }
}

/// A reduction by `derivation` in configuration `c`.
pub open spec fn reduce<F: Fn(Vec<String>) -> String>(
    table: TableView,
    handlers: HandlerRegistry<F>,
    c: Config,
    derivation: DerivationView,
) -> Step {
    let count = derivation.right.len();
    if count > c.stack.len() {
        Step::Done(Err(ErrorView::StackUnderflow))
    } else {
        let rest = c.stack.take(c.stack.len() - count);
        let popped = c.stack.skip(c.stack.len() - count);
        match handlers.handler_of(derivation) {
            None => Step::Done(Err(ErrorView::MissingHandler)),
            Some(handler) => match goto_target(table, rest, derivation.left) {
                None => Step::Done(Err(ErrorView::InvalidGoto)),
                Some(next) => {
                    let data = value_of(handler, data_of(frame_nodes(popped)));
                    let node = reduced_node(derivation, popped, data);
                    Step::Next(Config { stack: rest.push(FrameView { node, state: next }), pos: c.pos })
                },
            },
        }
    }
}

/// One step of the automaton in configuration `c` over the leaves `input`.
pub open spec fn step<F: Fn(Vec<String>) -> String>(
    table: TableView,
    handlers: HandlerRegistry<F>,
    input: Seq<NodeView>,
    c: Config,
) -> Step
    recommends
        c.stack.len() > 0,
        0 <= c.pos,
{
    if c.pos >= input.len() {
        Step::Done(Err(ErrorView::UnexpectedEndOfInput))
    } else {
        let lookahead = input[c.pos];
        let top = c.stack.last();
        match lookup(table, top.state, lookahead.symbol) {
            None => Step::Done(
                Err(
                    ErrorView::SyntaxError {
                        state: top.state,
                        symbol: lookahead.symbol,
                        position: c.pos,
                    },
                ),
            ),
            Some(ActionView::Shift(next)) => Step::Next(
                Config {
                    stack: c.stack.push(FrameView { node: lookahead, state: next }),
                    pos: c.pos + 1,
                },
            ),
            Some(ActionView::Reduce(derivation)) => reduce(table, handlers, c, derivation),
            Some(ActionView::Accept) => Step::Done(Ok(top.node)),
        }
    }
}

/// The outcome of running the automaton from `c` for at most `fuel` steps.
pub open spec fn run<F: Fn(Vec<String>) -> String>(
    table: TableView,
    handlers: HandlerRegistry<F>,
    input: Seq<NodeView>,
    c: Config,
    fuel: nat,
) -> Outcome
    decreases fuel,
{
    if fuel == 0 {
        Err(ErrorView::StepLimitExceeded)
    } else {
        match step(table, handlers, input, c) {
            Step::Done(outcome) => outcome,
            Step::Next(next) => run(table, handlers, input, next, (fuel - 1) as nat),
        }
    }
}

} // verus!
