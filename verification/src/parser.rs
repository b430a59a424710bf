//! The parser: the automaton run on real tokens, with real handlers.

use vstd::prelude::*;
use crate::automaton::{
    bottom_frame, goto_target, run, start_config, Config, Outcome, TableView, DUMMY_START_SYMBOL,
};
use crate::error::ParseError;
use crate::handler::{apply, HandlerRegistry};
use crate::table::{find_action, lookup, same_text, Action, ActionTable, ActionView, State};
use crate::theorems::{derived, lemma_run_accepts_derived, lemma_start_is_derived, run_fits};
use crate::token::{token_leaves, Token};
use crate::tree::{
    data_of, frame_nodes, frame_views, lemma_children_view, node_views, texts, FrameView,
    NodePair, NodeView, ParsingTreeNode,
};

verus! {

/// Every derivation that `table` reduces by has a handler in `handlers`.
pub open spec fn covers<F: Fn(Vec<String>) -> String>(table: TableView, handlers: HandlerRegistry<F>) -> bool {
    forall|state: usize, symbol: Seq<char>|
        match #[trigger] lookup(table, state, symbol) {
            Some(ActionView::Reduce(derivation)) => handlers.handler_of(derivation) is Some,
            _ => true,
        }
}

/// The value of the result of a parse.
pub open spec fn outcome_view(result: Result<ParsingTreeNode, ParseError>) -> Outcome {
    match result {
        Ok(node) => Ok(node@),
        Err(error) => Err(error@),
    }
}

/// A symbol with an action among `entries` is the key of one of them.
proof fn lemma_found_is_key(entries: Seq<(String, Action)>, symbol: Seq<char>)
    requires
        find_action(entries, symbol) is Some,
    ensures
        exists|j: int| 0 <= j < entries.len() && (#[trigger] entries[j]).0@ == symbol,
    decreases entries.len(),
{
    if entries.last().0@ == symbol {
        assert(entries[entries.len() - 1].0@ == symbol);
    } else {
        lemma_found_is_key(entries.drop_last(), symbol);
        let j = choose|j: int|
            0 <= j < entries.drop_last().len() && (#[trigger] entries.drop_last()[j]).0@ == symbol;
        assert(entries[j] == entries.drop_last()[j]);
    }
}

/// Every derivation that `state` reduces by has a handler in `handlers`.
pub open spec fn state_covered<F: Fn(Vec<String>) -> String>(
    state: Map<Seq<char>, ActionView>,
    handlers: HandlerRegistry<F>,
) -> bool {
    forall|symbol: Seq<char>|
        #[trigger] state.contains_key(symbol) ==> match state[symbol] {
            ActionView::Reduce(derivation) => handlers.handler_of(derivation) is Some,
            _ => true,
        }
}

/// Tells whether every derivation that `state` reduces by has a handler.
pub fn check_state<F: Fn(Vec<String>) -> String>(state: &State, handlers: &HandlerRegistry<F>) -> (covered: bool)
    ensures
        covered == state_covered(state@, *handlers),
{
    let mut j: usize = 0;
    while j < state.actions.len()
        invariant
            j <= state.actions.len(),
            forall|k: int|
                0 <= k < j && state@.contains_key((#[trigger] state.actions@[k]).0@) ==> match state@[state.actions@[k].0@] {
                    ActionView::Reduce(derivation) => handlers.handler_of(derivation) is Some,
                    _ => true,
                },
        decreases state.actions.len() - j,
    {
        let key = &state.actions[j].0;
        match state.get(key.as_str()) {
            Some(Action::Reduce(derivation)) => {
                if handlers.resolve(derivation).is_none() {
                    assert(state@.contains_key(key@));
                    return false;
                }
            },
            _ => {},
        }
        j += 1;
    }
    proof {
        assert forall|symbol: Seq<char>| #[trigger] state@.contains_key(symbol) implies match state@[symbol] {
            ActionView::Reduce(derivation) => handlers.handler_of(derivation) is Some,
            _ => true,
        } by {
            lemma_found_is_key(state.actions@, symbol);
        }
    }
    true
}

/// A shift-reduce parser: an action table, the handlers of its derivations
/// and a bound on the number of steps of one parse.
pub struct RParser<F: Fn(Vec<String>) -> String> {
    action_table: ActionTable,
    handlers: HandlerRegistry<F>,
    step_limit: usize,
}

impl<F: Fn(Vec<String>) -> String> RParser<F> {
    #[verifier::type_invariant]
    spec fn complete(&self) -> bool {
        covers(self.action_table@, self.handlers)
    }

    /// The parser's action table.
    pub closed spec fn table(&self) -> TableView {
        self.action_table@
    }

    /// The parser's handlers.
    pub closed spec fn registry(&self) -> HandlerRegistry<F> {
        self.handlers
    }

    /// The number of steps that one parse may take.
    pub closed spec fn limit(&self) -> nat {
        self.step_limit as nat
    }

    /// What the parser makes of the leaves `input`: the outcome of the
    /// automaton run from the start configuration within the step limit.
    pub open spec fn outcome(&self, input: Seq<NodeView>) -> Outcome {
        run(self.table(), self.registry(), input, start_config(), self.limit())
    }

    /// Every reduction of the parse of `input` finds the right side of its
    /// derivation on top of the stack.
    pub open spec fn fits(&self, input: Seq<NodeView>) -> bool {
        run_fits(self.table(), self.registry(), input, start_config(), self.limit())
    }

    /// Builds a parser from a finished table and the handlers of its
    /// derivations. Fails if the table reduces by a derivation that has no
    /// handler. The step limit is the largest there is.
    pub fn new(action_table: ActionTable, handlers: HandlerRegistry<F>) -> (made: Result<
        Self,
        ParseError,
    >)
        ensures
            match made {
                Ok(parser) => covers(action_table@, handlers) && parser.table() == action_table@
                    && parser.registry() == handlers && parser.limit() == usize::MAX,
                Err(error) => !covers(action_table@, handlers) && error
                    == ParseError::MissingHandler,
            },
    {
        let mut i: usize = 0;
        while i < action_table.states.len()
            invariant
                i <= action_table.states.len(),
                forall|k: int| 0 <= k < i ==> state_covered(#[trigger] action_table@[k], handlers),
            decreases action_table.states.len() - i,
        {
            if !check_state(&action_table.states[i], &handlers) {
                proof {
                    let state = action_table@[i as int];
                    let symbol = choose|symbol: Seq<char>|
                        state.contains_key(symbol) && !(match state[symbol] {
                            ActionView::Reduce(derivation) => handlers.handler_of(derivation) is Some,
                            _ => true,
                        });
                    assert(lookup(action_table@, i, symbol) == Some(state[symbol]));
                }
                return Err(ParseError::MissingHandler);
            }
            i += 1;
        }
        proof {
            assert forall|state: usize, symbol: Seq<char>|
                match #[trigger] lookup(action_table@, state, symbol) {
                    Some(ActionView::Reduce(derivation)) => handlers.handler_of(derivation) is Some,
                    _ => true,
                } by {
                if state < action_table@.len() && action_table@[state as int].contains_key(symbol) {
                    assert(state_covered(action_table@[state as int], handlers));
                }
            }
        }
        Ok(RParser { action_table, handlers, step_limit: usize::MAX })
    }

    /// The same parser with another step limit.
    pub fn with_step_limit(self, step_limit: usize) -> (parser: Self)
        ensures
            parser.table() == self.table(),
            parser.registry() == self.registry(),
            parser.limit() == step_limit,
    {
        proof {
            use_type_invariant(&self);
        }
        RParser { action_table: self.action_table, handlers: self.handlers, step_limit }
    }

    /// Parses `tokens`: runs the automaton over them and returns the node on
    /// top of the stack when it accepts, or the error that stopped it. The
    /// tree returned is made of the tokens by reductions of the table, and
    /// mirrors the derivations exactly where each reduction found its right
    /// side on the stack. No handler is ever missing.
    pub fn parse<T: Token>(&self, tokens: Vec<T>) -> (result: Result<ParsingTreeNode, ParseError>)
        ensures
            outcome_view(result) == self.outcome(token_leaves(tokens@)),
            !(result matches Err(ParseError::MissingHandler)),
            match result {
                Ok(node) => derived(
                    self.table(),
                    self.registry(),
                    token_leaves(tokens@),
                    self.fits(token_leaves(tokens@)),
                    node@,
                ),
                Err(_) => true,
            },
    {
        proof {
            use_type_invariant(self);
        }
        let ghost input = token_leaves(tokens@);
        proof {
            lemma_start_is_derived(self.action_table@, self.handlers, input, self.fits(input));
            lemma_run_accepts_derived(
                self.action_table@,
                self.handlers,
                input,
                self.fits(input),
                start_config(),
                self.step_limit as nat,
            );
        }
        let mut stack: Vec<NodePair> = Vec::new();
        let bottom = ParsingTreeNode::build(DUMMY_START_SYMBOL.to_owned(), String::new(), Vec::new());
        stack.push(NodePair::new(bottom, 0));
        assert(frame_views(stack@) =~= start_config().stack) by {
            assert(node_views(Seq::<ParsingTreeNode>::empty()) =~= Seq::empty());
            assert(frame_views(stack@)[0] == bottom_frame());
        }
        let mut shift_index: usize = 0;
        let mut steps: usize = 0;
        loop
            invariant
                stack.len() > 0,
                shift_index <= tokens.len(),
                steps <= self.step_limit,
                input == token_leaves(tokens@),
                covers(self.action_table@, self.handlers),
                match self.outcome(input) {
                    Ok(node) => derived(
                        self.action_table@,
                        self.handlers,
                        input,
                        self.fits(input),
                        node,
                    ),
                    Err(_) => true,
                },
                self.outcome(input) == run(
                    self.action_table@,
                    self.handlers,
                    input,
                    Config { stack: frame_views(stack@), pos: shift_index as int },
                    (self.step_limit - steps) as nat,
                ),
            decreases self.step_limit - steps,
        {
            let ghost here = Config { stack: frame_views(stack@), pos: shift_index as int };
            if steps >= self.step_limit {
                return Err(ParseError::StepLimitExceeded);
            }
            steps += 1;
            if shift_index >= tokens.len() {
                return Err(ParseError::UnexpectedEndOfInput);
            }
            let token_node = tokens[shift_index].to_tree_node();
            proof {
                lemma_children_view(&token_node);
            }
            let top_state = stack[stack.len() - 1].1;
            match self.action_table.get_action(top_state, token_node.symbol_type.as_str()) {
                None => {
                    return Err(
                        ParseError::SyntaxError {
                            state: top_state,
                            symbol: token_node.symbol_type,
                            position: shift_index,
                        },
                    );
                },
                Some(Action::Shift(next_state)) => {
                    stack.push(NodePair::new(token_node, *next_state));
                    shift_index += 1;
                    assert(frame_views(stack@) =~= here.stack.push(
                        FrameView { node: input[here.pos], state: *next_state },
                    ));
                },
                Some(Action::Accept) => {
                    let top = stack.pop().unwrap();
                    return Ok(top.0);
                },
                Some(Action::Reduce(derivation)) => {
                    let count = derivation.right.len();
                    if count > stack.len() {
                        return Err(ParseError::StackUnderflow);
                    }
                    let handler = match self.handlers.resolve(derivation) {
                        Some(handler) => handler,
                        None => {
                            return Err(ParseError::MissingHandler);
                        },
                    };
                    let children = pop_frames(&mut stack, count);
                    let ghost rest = frame_views(stack@);
                    let next_state = match goto_state(
                        &self.action_table,
                        &stack,
                        derivation.left.as_str(),
                    ) {
                        Some(next_state) => next_state,
                        None => {
                            return Err(ParseError::InvalidGoto);
                        },
                    };
                    let datas = collect_data(&children);
                    let data = apply(handler, datas);
                    let node = ParsingTreeNode::build(derivation.left.clone(), data, children);
                    stack.push(NodePair::new(node, next_state));
                    assert(frame_views(stack@) =~= rest.push(
                        FrameView { node: node@, state: next_state },
                    ));
                },
            }
        }
    }
}

/// Pops the `count` frames on top of `stack` and returns their nodes in the
/// order in which they stood on the stack, bottom first.
pub fn pop_frames(stack: &mut Vec<NodePair>, count: usize) -> (children: Vec<ParsingTreeNode>)
    requires
        count <= old(stack).len(),
    ensures
        final(stack)@ == old(stack)@.take(old(stack).len() - count),
        children.len() == count,
        forall|j: int| 0 <= j < count ==> children@[j] == old(stack)@[old(stack).len() - count + j].0,
        frame_views(final(stack)@) == frame_views(old(stack)@).take(old(stack).len() - count),
        node_views(children@) == frame_nodes(
            frame_views(old(stack)@).skip(old(stack).len() - count),
        ),
{
    let ghost before = stack@;
    let mut reversed: Vec<ParsingTreeNode> = Vec::new();
    let mut k: usize = 0;
    while k < count
        invariant
            k <= count <= before.len(),
            stack@ == before.take(before.len() - k),
            reversed.len() == k,
            forall|j: int| 0 <= j < k ==> reversed@[j] == before[before.len() - 1 - j].0,
        decreases count - k,
    {
        let top = stack.pop().unwrap();
        reversed.push(top.0);
        k += 1;
        assert(stack@ =~= before.take(before.len() - k));
    }
    let ghost turned = reversed@;
    let mut children: Vec<ParsingTreeNode> = Vec::new();
    while reversed.len() > 0
        invariant
            children.len() + reversed.len() == count,
            turned.len() == count,
            reversed@ == turned.take(reversed.len() as int),
            forall|j: int| 0 <= j < children.len() ==> children@[j] == turned[count - 1 - j],
        decreases reversed.len(),
    {
        let node = reversed.pop().unwrap();
        children.push(node);
        assert(reversed@ =~= turned.take(reversed.len() as int));
    }
    assert(frame_views(stack@) =~= frame_views(before).take(before.len() - count));
    assert(node_views(children@) =~= frame_nodes(
        frame_views(before).skip(before.len() - count),
    ));
    children
}

/// The data of each node of `children`, in order.
pub fn collect_data(children: &Vec<ParsingTreeNode>) -> (datas: Vec<String>)
    ensures
        texts(datas@) == data_of(node_views(children@)),
{
    let mut datas: Vec<String> = Vec::new();
    let mut i: usize = 0;
    while i < children.len()
        invariant
            i <= children.len(),
            datas.len() == i,
            forall|j: int| 0 <= j < i ==> datas@[j]@ == children@[j].data@,
        decreases children.len() - i,
    {
        datas.push(children[i].data.clone());
        i += 1;
    }
    proof {
        assert forall|j: int| 0 <= j < children.len() implies children@[j]@.data
            == children@[j].data@ by {
            lemma_children_view(&children@[j]);
        }
        assert(texts(datas@) =~= data_of(node_views(children@)));
    }
    datas
}

/// The state to enter after a reduction to `left` that left `stack` behind.
pub fn goto_state(table: &ActionTable, stack: &Vec<NodePair>, left: &str) -> (next: Option<usize>)
    ensures
        next == goto_target(table@, frame_views(stack@), left@),
{
    if same_text(left, DUMMY_START_SYMBOL) {
        return Some(0);
    }
    if stack.len() == 0 {
        return None;
    }
    match table.get_action(stack[stack.len() - 1].1, left) {
        Some(Action::Shift(next_state)) => Some(*next_state),
        _ => None,
    }
}

} // verus!
