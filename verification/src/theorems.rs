//! What holds of every run of the automaton.

use vstd::prelude::*;
use crate::automaton::{
    bottom_frame, reduce, run, start_config, step, Config, Step, TableView, END_SYMBOL,
};
use crate::error::ErrorView;
use crate::handler::{value_of, HandlerRegistry};
use crate::parser::RParser;
use crate::table::{lookup, ActionView, DerivationView};
use crate::tree::{data_of, frame_nodes, NodeView};

verus! {

/// The outcome of a run is a function of the table, the handlers, the leaves
/// of the input, the configuration and the number of steps allowed: runs
/// that agree on these end alike, with identical trees or identical errors.
pub proof fn lemma_run_is_deterministic<F: Fn(Vec<String>) -> String>(
    table: TableView,
    handlers: HandlerRegistry<F>,
    other_handlers: HandlerRegistry<F>,
    input: Seq<NodeView>,
    other_input: Seq<NodeView>,
    c: Config,
    fuel: nat,
)
    requires
        forall|derivation: DerivationView|
            handlers.handler_of(derivation) == other_handlers.handler_of(derivation),
        input.len() == other_input.len(),
        forall|i: int| 0 <= i < input.len() ==> input[i] == other_input[i],
    ensures
        run(table, handlers, input, c, fuel) == run(table, other_handlers, other_input, c, fuel),
    decreases fuel,
{
    if fuel > 0 {
        assert(input =~= other_input);
        assert(step(table, handlers, input, c) == step(table, other_handlers, other_input, c));
        match step(table, handlers, input, c) {
            Step::Next(next) => {
                lemma_run_is_deterministic(
                    table,
                    handlers,
                    other_handlers,
                    input,
                    other_input,
                    next,
                    (fuel - 1) as nat,
                );
            },
            Step::Done(_) => {},
        }
    }
}

/// A reduction that goes through pops as many frames as the derivation has
/// symbols on its right and pushes one node in their place. The node carries
/// the left symbol; its children are the nodes of the popped frames, the
/// lowest first; its data is the handler's value on the data of those nodes
/// in that same order.
pub proof fn lemma_reduce_keeps_order<F: Fn(Vec<String>) -> String>(
    table: TableView,
    handlers: HandlerRegistry<F>,
    c: Config,
    derivation: DerivationView,
)
    requires
        reduce(table, handlers, c, derivation) is Next,
    ensures
        ({
            let next = reduce(table, handlers, c, derivation)->Next_0;
            let node = next.stack.last().node;
            let base = c.stack.len() - derivation.right.len();
            &&& base >= 0
            &&& next.pos == c.pos
            &&& next.stack.len() == base + 1
            &&& forall|i: int| 0 <= i < base ==> next.stack[i] == c.stack[i]
            &&& node.symbol == derivation.left
            &&& node.children.len() == derivation.right.len()
            &&& forall|i: int|
                0 <= i < derivation.right.len() ==> node.children[i] == c.stack[base + i].node
            &&& handlers.handler_of(derivation) is Some
            &&& node.data == value_of(
                handlers.handler_of(derivation).unwrap(),
                Seq::new(derivation.right.len(), |i: int| c.stack[base + i].node.data),
            )
        }),
{
    let base = c.stack.len() - derivation.right.len();
    let popped = c.stack.skip(base);
    assert(data_of(frame_nodes(popped)) =~= Seq::new(
        derivation.right.len(),
        |i: int| c.stack[base + i].node.data,
    ));
}

/// Where the frames on top of the stack carry the symbols of the right side
/// of a derivation, in order, the node that the reduction builds has exactly
/// those symbols on its children, in that order.
pub proof fn lemma_reduce_mirrors_derivation<F: Fn(Vec<String>) -> String>(
    table: TableView,
    handlers: HandlerRegistry<F>,
    c: Config,
    derivation: DerivationView,
)
    requires
        reduce(table, handlers, c, derivation) is Next,
        forall|i: int|
            0 <= i < derivation.right.len() ==> c.stack[c.stack.len() - derivation.right.len()
                + i].node.symbol == derivation.right[i],
    ensures
        ({
            let node = reduce(table, handlers, c, derivation)->Next_0.stack.last().node;
            &&& node.symbol == derivation.left
            &&& node.children.len() == derivation.right.len()
            &&& forall|i: int|
                0 <= i < derivation.right.len() ==> node.children[i].symbol == derivation.right[i]
        }),
{
    lemma_reduce_keeps_order(table, handlers, c, derivation);
}

/// The children of the node carry the symbols of the right side of the
/// derivation, one each and in order.
pub open spec fn follows_right(node: NodeView, derivation: DerivationView) -> bool {
    &&& node.children.len() == derivation.right.len()
    &&& forall|i: int|
        0 <= i < derivation.right.len() ==> (#[trigger] node.children[i]).symbol
            == derivation.right[i]
}

/// The node is what a reduction by `derivation`, a derivation that the table
/// reduces by, makes of its children: it carries the left symbol, has one
/// child for each symbol on the right, and its data is the handler's value on
/// the children's data in order. With `exact`, the children also carry the
/// symbols of the right side.
pub open spec fn reduced_by<F: Fn(Vec<String>) -> String>(
    table: TableView,
    handlers: HandlerRegistry<F>,
    exact: bool,
    node: NodeView,
    derivation: DerivationView,
) -> bool {
    &&& exact ==> follows_right(node, derivation)
    &&& exists|state: usize, symbol: Seq<char>| #[trigger]
        lookup(table, state, symbol) == Some(ActionView::Reduce(derivation))
    &&& node.symbol == derivation.left
    &&& node.children.len() == derivation.right.len()
    &&& handlers.handler_of(derivation) is Some
    &&& node.data == value_of(handlers.handler_of(derivation).unwrap(), data_of(node.children))
}

/// The tree is made of the input and the table: it is the placeholder at
/// the bottom of the stack, or a leaf of the input, or the result of a
/// reduction whose children are such trees in turn. With `exact`, the
/// children of every reduction carry the symbols of its right side.
pub open spec fn derived<F: Fn(Vec<String>) -> String>(
    table: TableView,
    handlers: HandlerRegistry<F>,
    input: Seq<NodeView>,
    exact: bool,
    node: NodeView,
) -> bool
    decreases node,
{
    ||| node == bottom_frame().node
    ||| exists|i: int| 0 <= i < input.len() && #[trigger] input[i] == node
    ||| {
        &&& exists|derivation: DerivationView| #[trigger]
            reduced_by(table, handlers, exact, node, derivation)
        &&& forall|i: int|
            0 <= i < node.children.len() ==> #[trigger] derived(
                table,
                handlers,
                input,
                exact,
                node.children[i],
            )
    }
}

/// Every frame of the configuration holds a derived tree, and there is one
/// at least.
pub open spec fn all_derived<F: Fn(Vec<String>) -> String>(
    table: TableView,
    handlers: HandlerRegistry<F>,
    input: Seq<NodeView>,
    exact: bool,
    c: Config,
) -> bool {
    &&& c.stack.len() > 0
    &&& 0 <= c.pos
    &&& forall|i: int|
        0 <= i < c.stack.len() ==> derived(
            table,
            handlers,
            input,
            exact,
            (#[trigger] c.stack[i]).node,
        )
}

/// Where the step in `c` is a reduction, the frames that it pops carry the
/// symbols of the right side of its derivation, in order.
pub open spec fn step_fits(table: TableView, input: Seq<NodeView>, c: Config) -> bool {
    0 <= c.pos < input.len() ==> match lookup(table, c.stack.last().state, input[c.pos].symbol) {
        Some(ActionView::Reduce(derivation)) => derivation.right.len() <= c.stack.len()
            ==> forall|i: int|
            0 <= i < derivation.right.len() ==> (#[trigger] c.stack[c.stack.len()
                - derivation.right.len() + i]).node.symbol == derivation.right[i],
        _ => true,
    }
}

/// Every reduction of the run from `c` finds the right side of its
/// derivation on top of the stack, as it does under a table that was built
/// for the grammar.
pub open spec fn run_fits<F: Fn(Vec<String>) -> String>(
    table: TableView,
    handlers: HandlerRegistry<F>,
    input: Seq<NodeView>,
    c: Config,
    fuel: nat,
) -> bool
    decreases fuel,
{
    fuel == 0 || (step_fits(table, input, c) && match step(table, handlers, input, c) {
        Step::Next(next) => run_fits(table, handlers, input, next, (fuel - 1) as nat),
        Step::Done(_) => true,
    })
}

/// A step keeps the stack made of derived trees, and accepts only such a
/// tree.
pub proof fn lemma_step_keeps_derived<F: Fn(Vec<String>) -> String>(
    table: TableView,
    handlers: HandlerRegistry<F>,
    input: Seq<NodeView>,
    exact: bool,
    c: Config,
)
    requires
        all_derived(table, handlers, input, exact, c),
        exact ==> step_fits(table, input, c),
    ensures
        match step(table, handlers, input, c) {
            Step::Next(next) => all_derived(table, handlers, input, exact, next),
            Step::Done(Ok(node)) => derived(table, handlers, input, exact, node),
            Step::Done(Err(_)) => true,
        },
{
    if c.pos < input.len() {
        let lookahead = input[c.pos];
        let top = c.stack.last();
        assert(derived(table, handlers, input, exact, c.stack[c.stack.len() - 1].node));
        match lookup(table, top.state, lookahead.symbol) {
            Some(ActionView::Shift(_)) => {
                assert(derived(table, handlers, input, exact, lookahead));
            },
            Some(ActionView::Reduce(derivation)) => {
                if reduce(table, handlers, c, derivation) is Next {
                    lemma_reduce_keeps_order(table, handlers, c, derivation);
                    let next = reduce(table, handlers, c, derivation)->Next_0;
                    let node = next.stack.last().node;
                    let base = c.stack.len() - derivation.right.len();
                    assert(data_of(node.children) =~= Seq::new(
                        derivation.right.len(),
                        |i: int| c.stack[base + i].node.data,
                    ));
                    if exact {
                        assert forall|i: int| 0 <= i < derivation.right.len() implies (
                        #[trigger] node.children[i]).symbol == derivation.right[i] by {
                            assert(node.children[i] == c.stack[base + i].node);
                        }
                    }
                    assert(reduced_by(table, handlers, exact, node, derivation));
                    assert forall|i: int| 0 <= i < node.children.len() implies #[trigger] derived(
                        table,
                        handlers,
                        input,
                        exact,
                        node.children[i],
                    ) by {
                        assert(node.children[i] == c.stack[base + i].node);
                    }
                    assert(derived(table, handlers, input, exact, node));
                    assert forall|i: int| 0 <= i < next.stack.len() implies derived(
                        table,
                        handlers,
                        input,
                        exact,
                        (#[trigger] next.stack[i]).node,
                    ) by {
                        if i < base {
                            assert(next.stack[i] == c.stack[i]);
                        }
                    }
                }
            },
            _ => {},
        }
    }
}

/// The tree that a run accepts mirrors the derivations used: each of its
/// nodes is the placeholder of the start, a leaf of the input, or a node
/// that carries the left symbol of a derivation of the table, has one child
/// for each symbol on its right and holds the handler's value on the
/// children's data in order. Where every reduction of the run found its
/// right side on the stack, the children of each node carry exactly the
/// symbols of that right side, in order.
pub proof fn lemma_run_accepts_derived<F: Fn(Vec<String>) -> String>(
    table: TableView,
    handlers: HandlerRegistry<F>,
    input: Seq<NodeView>,
    exact: bool,
    c: Config,
    fuel: nat,
)
    requires
        all_derived(table, handlers, input, exact, c),
        exact ==> run_fits(table, handlers, input, c, fuel),
    ensures
        match run(table, handlers, input, c, fuel) {
            Ok(node) => derived(table, handlers, input, exact, node),
            Err(_) => true,
        },
    decreases fuel,
{
    if fuel > 0 {
        lemma_step_keeps_derived(table, handlers, input, exact, c);
        match step(table, handlers, input, c) {
            Step::Next(next) => {
                lemma_run_accepts_derived(table, handlers, input, exact, next, (fuel - 1) as nat);
            },
            Step::Done(_) => {},
        }
    }
}

/// The start configuration holds nothing but the placeholder.
pub proof fn lemma_start_is_derived<F: Fn(Vec<String>) -> String>(
    table: TableView,
    handlers: HandlerRegistry<F>,
    input: Seq<NodeView>,
    exact: bool,
)
    ensures
        all_derived(table, handlers, input, exact, start_config()),
{
}

/// The table accepts on no symbol but the end of input.
pub open spec fn accepts_at_end_only(table: TableView) -> bool {
    forall|state: usize, symbol: Seq<char>|
        #[trigger] lookup(table, state, symbol) == Some(ActionView::Accept) ==> symbol
            == END_SYMBOL@
}

/// No leaf of the input carries the end-of-input symbol.
pub open spec fn lacks_sentinel(input: Seq<NodeView>) -> bool {
    forall|i: int| 0 <= i < input.len() ==> (#[trigger] input[i]).symbol != END_SYMBOL@
}

/// With the cursor behind the last token, the step is the error of
/// unexpected end of input, whatever the table and the stack hold.
pub proof fn lemma_exhausted_input_is_reported<F: Fn(Vec<String>) -> String>(
    table: TableView,
    handlers: HandlerRegistry<F>,
    input: Seq<NodeView>,
    c: Config,
    fuel: nat,
)
    requires
        c.pos >= input.len(),
        fuel > 0,
    ensures
        step(table, handlers, input, c) == Step::Done(Err(ErrorView::UnexpectedEndOfInput)),
        run(table, handlers, input, c, fuel) == Err::<NodeView, ErrorView>(
            ErrorView::UnexpectedEndOfInput,
        ),
{
}

/// Input without the end-of-input token is never accepted by a table that
/// accepts at the end of input only: every run on it ends in an error.
pub proof fn lemma_missing_sentinel_is_rejected<F: Fn(Vec<String>) -> String>(
    table: TableView,
    handlers: HandlerRegistry<F>,
    input: Seq<NodeView>,
    c: Config,
    fuel: nat,
)
    requires
        accepts_at_end_only(table),
        lacks_sentinel(input),
        0 <= c.pos,
    ensures
        run(table, handlers, input, c, fuel) is Err,
    decreases fuel,
{
    if fuel > 0 {
        match step(table, handlers, input, c) {
            Step::Next(next) => {
                lemma_missing_sentinel_is_rejected(table, handlers, input, next, (fuel - 1) as nat);
            },
            Step::Done(outcome) => {
                if c.pos < input.len() {
                    let lookahead = input[c.pos];
                    assert(lookahead.symbol != END_SYMBOL@);
                    assert(lookup(table, c.stack.last().state, lookahead.symbol) != Some(
                        ActionView::Accept,
                    ));
                }
            },
        }
    }
}

/// Where the table has no action for the state on top of the stack and the
/// symbol of the next token, the run ends there in a syntax error that names
/// that state, that symbol and the position of the token.
pub proof fn lemma_no_action_is_syntax_error<F: Fn(Vec<String>) -> String>(
    table: TableView,
    handlers: HandlerRegistry<F>,
    input: Seq<NodeView>,
    c: Config,
    fuel: nat,
)
    requires
        0 <= c.pos < input.len(),
        lookup(table, c.stack.last().state, input[c.pos].symbol) is None,
        fuel > 0,
    ensures
        run(table, handlers, input, c, fuel) == Err::<NodeView, ErrorView>(
            ErrorView::SyntaxError {
                state: c.stack.last().state,
                symbol: input[c.pos].symbol,
                position: c.pos,
            },
        ),
{
}

/// A run that ends in a syntax error stopped at a token for whose symbol the
/// table had no action in the state that the error names; no other step
/// gives this error.
pub proof fn lemma_syntax_error_means_no_action<F: Fn(Vec<String>) -> String>(
    table: TableView,
    handlers: HandlerRegistry<F>,
    input: Seq<NodeView>,
    c: Config,
    fuel: nat,
)
    requires
        0 <= c.pos,
        run(table, handlers, input, c, fuel) is Err,
        run(table, handlers, input, c, fuel)->Err_0 is SyntaxError,
    ensures
        ({
            let error = run(table, handlers, input, c, fuel)->Err_0;
            &&& c.pos <= error->position < input.len()
            &&& error->symbol == input[error->position].symbol
            &&& lookup(table, error->state, error->symbol) is None
        }),
    decreases fuel,
{
    if fuel > 0 {
        match step(table, handlers, input, c) {
            Step::Next(next) => {
                lemma_syntax_error_means_no_action(table, handlers, input, next, (fuel - 1) as nat);
            },
            Step::Done(_) => {},
        }
    }
}

/// A step never moves the cursor back, moves it by one token at most and
/// never past the end of the input; only a shift moves it.
pub proof fn lemma_step_advances_cursor<F: Fn(Vec<String>) -> String>(
    table: TableView,
    handlers: HandlerRegistry<F>,
    input: Seq<NodeView>,
    c: Config,
)
    requires
        0 <= c.pos <= input.len(),
        step(table, handlers, input, c) is Next,
    ensures
        ({
            let next = step(table, handlers, input, c)->Next_0;
            &&& c.pos <= next.pos <= c.pos + 1
            &&& next.pos <= input.len()
            &&& next.stack.len() > 0
            &&& next.pos == c.pos + 1 <==> lookup(
                table,
                c.stack.last().state,
                input[c.pos].symbol,
            ) is Some && lookup(table, c.stack.last().state, input[c.pos].symbol)->Some_0 is Shift
        }),
{
}

/// The step limit decides nothing but whether the run is cut short: a run
/// that ends within its limit ends alike under every larger limit.
pub proof fn lemma_larger_limit_same_outcome<F: Fn(Vec<String>) -> String>(
    table: TableView,
    handlers: HandlerRegistry<F>,
    input: Seq<NodeView>,
    c: Config,
    fuel: nat,
    more: nat,
)
    requires
        fuel <= more,
        run(table, handlers, input, c, fuel) != Err::<NodeView, ErrorView>(
            ErrorView::StepLimitExceeded,
        ),
    ensures
        run(table, handlers, input, c, more) == run(table, handlers, input, c, fuel),
    decreases fuel,
{
    if fuel > 0 {
        match step(table, handlers, input, c) {
            Step::Next(next) => {
                lemma_larger_limit_same_outcome(
                    table,
                    handlers,
                    input,
                    next,
                    (fuel - 1) as nat,
                    (more - 1) as nat,
                );
            },
            Step::Done(_) => {},
        }
    }
}

/// Two parsers with the same table, the same handlers and the same step
/// limit make the same of token streams that show the same leaves: the same
/// tree with the same data, or the same error.
pub proof fn lemma_parse_is_deterministic<F: Fn(Vec<String>) -> String>(
    parser: RParser<F>,
    other: RParser<F>,
    input: Seq<NodeView>,
    other_input: Seq<NodeView>,
)
    requires
        parser.table() == other.table(),
        parser.limit() == other.limit(),
        forall|derivation: DerivationView|
            parser.registry().handler_of(derivation) == other.registry().handler_of(derivation),
        input.len() == other_input.len(),
        forall|i: int| 0 <= i < input.len() ==> input[i] == other_input[i],
    ensures
        parser.outcome(input) == other.outcome(other_input),
{
    lemma_run_is_deterministic(
        parser.table(),
        parser.registry(),
        other.registry(),
        input,
        other_input,
        start_config(),
        parser.limit(),
    );
}

/// A parser whose table accepts at the end of input only rejects every
/// token stream that lacks the end-of-input token.
pub proof fn lemma_parse_needs_sentinel<F: Fn(Vec<String>) -> String>(
    parser: RParser<F>,
    input: Seq<NodeView>,
)
    requires
        accepts_at_end_only(parser.table()),
        lacks_sentinel(input),
    ensures
        parser.outcome(input) is Err,
{
    lemma_missing_sentinel_is_rejected(
        parser.table(),
        parser.registry(),
        input,
        start_config(),
        parser.limit(),
    );
}

/// A parser that may take a step reports unexpected end of input on the
/// empty token stream.
pub proof fn lemma_parse_of_nothing<F: Fn(Vec<String>) -> String>(
    parser: RParser<F>,
    input: Seq<NodeView>,
)
    requires
        input.len() == 0,
        parser.limit() > 0,
    ensures
        parser.outcome(input) == Err::<NodeView, ErrorView>(ErrorView::UnexpectedEndOfInput),
{
    lemma_exhausted_input_is_reported(
        parser.table(),
        parser.registry(),
        input,
        start_config(),
        parser.limit(),
    );
}

/// A parser that may take a step and whose table has no action in state 0
/// for the symbol of the first token reports a syntax error at position 0.
pub proof fn lemma_parse_rejects_first_token<F: Fn(Vec<String>) -> String>(
    parser: RParser<F>,
    input: Seq<NodeView>,
)
    requires
        input.len() > 0,
        parser.limit() > 0,
        lookup(parser.table(), 0, input[0].symbol) is None,
    ensures
        parser.outcome(input) == Err::<NodeView, ErrorView>(
            ErrorView::SyntaxError { state: 0, symbol: input[0].symbol, position: 0 },
        ),
{
    lemma_no_action_is_syntax_error(
        parser.table(),
        parser.registry(),
        input,
        start_config(),
        parser.limit(),
    );
}

} // verus!
