use rparser::automaton::{DUMMY_START_SYMBOL, END_SYMBOL, EPSILON_SYMBOL};
use rparser::error::ParseError;
use rparser::handler::{apply, HandlerRegistry};
use rparser::parser::{check_state, collect_data, goto_state, pop_frames};
use rparser::table::{Action, ActionTable, ReduceDerivation, State};
use rparser::tree::{NodePair, ParsingTreeNode};

type Semantic = Box<dyn Fn(Vec<String>) -> String>;

fn node(symbol: &str, data: &str) -> ParsingTreeNode {
    ParsingTreeNode::build(symbol.to_string(), data.to_string(), vec![])
}

fn stack_of(frames: &[(&str, &str, usize)]) -> Vec<NodePair> {
    frames.iter().map(|(symbol, data, state)| NodePair::new(node(symbol, data), *state)).collect()
}

#[test]
fn reserved_symbols_are_distinct() {
    assert_eq!(END_SYMBOL, "__$__");
    assert_eq!(EPSILON_SYMBOL, "__EPSILON__");
    assert_eq!(DUMMY_START_SYMBOL, "__DUMMY_START__");
}

#[test]
fn build_keeps_the_parts() {
    let child = node("int", "3");
    let parent = ParsingTreeNode::build("T".to_string(), "3".to_string(), vec![child]);
    assert_eq!(parent.symbol_type, "T");
    assert_eq!(parent.data, "3");
    assert_eq!(parent.children.len(), 1);
    assert_eq!(parent.children[0], node("int", "3"));
}

#[test]
fn frame_pairs_node_and_state() {
    let pair = NodePair::new(node("int", "3"), 4);
    assert_eq!(pair.0, node("int", "3"));
    assert_eq!(pair.1, 4);
}

#[test]
fn derivation_keeps_both_sides() {
    let derivation =
        ReduceDerivation::build("E".to_string(), vec!["T".to_string(), "+".to_string()]);
    assert_eq!(derivation.left, "E");
    assert_eq!(derivation.right, vec!["T".to_string(), "+".to_string()]);
}

#[test]
fn popped_frames_come_bottom_first() {
    let mut stack = stack_of(&[("a", "1", 0), ("b", "2", 1), ("c", "3", 2), ("d", "4", 3)]);
    let children = pop_frames(&mut stack, 3);
    assert_eq!(children, vec![node("b", "2"), node("c", "3"), node("d", "4")]);
    assert_eq!(stack.len(), 1);
    assert_eq!(stack[0].0, node("a", "1"));
    assert_eq!(stack[0].1, 0);
}

#[test]
fn popping_nothing_changes_nothing() {
    let mut stack = stack_of(&[("a", "1", 0), ("b", "2", 1)]);
    let children = pop_frames(&mut stack, 0);
    assert!(children.is_empty());
    assert_eq!(stack.len(), 2);
    let all = pop_frames(&mut stack, 2);
    assert_eq!(all, vec![node("a", "1"), node("b", "2")]);
    assert!(stack.is_empty());
}

#[test]
fn data_is_collected_in_order() {
    let children = vec![node("int", "2"), node("*", "times"), node("T", "3")];
    assert_eq!(collect_data(&children), vec!["2", "times", "3"]);
    assert!(collect_data(&Vec::new()).is_empty());
}

#[test]
fn goto_follows_the_shift_of_the_state_on_top() {
    let mut first = State::new();
    first.insert("E".to_string(), Action::Shift(7));
    first.insert("T".to_string(), Action::Accept);
    let mut second = State::new();
    second.insert("E".to_string(), Action::Shift(9));
    let mut table = ActionTable::new();
    table.states.push(first);
    table.states.push(second);

    let stack = stack_of(&[("x", "", 0)]);
    assert_eq!(goto_state(&table, &stack, "E"), Some(7));
    assert_eq!(goto_state(&table, &stack, "T"), None);
    assert_eq!(goto_state(&table, &stack, "S"), None);
    let stack = stack_of(&[("x", "", 0), ("y", "", 1)]);
    assert_eq!(goto_state(&table, &stack, "E"), Some(9));
    let stack = stack_of(&[("x", "", 5)]);
    assert_eq!(goto_state(&table, &stack, "E"), None);
    assert_eq!(goto_state(&table, &Vec::new(), "E"), None);
}

#[test]
fn goto_of_the_start_wrapper_is_state_zero() {
    let table = ActionTable::new();
    assert_eq!(goto_state(&table, &Vec::new(), DUMMY_START_SYMBOL), Some(0));
    assert_eq!(goto_state(&table, &stack_of(&[("x", "", 3)]), DUMMY_START_SYMBOL), Some(0));
}

#[test]
fn state_is_covered_when_every_reduce_has_a_handler() {
    let derivation = || ReduceDerivation::build("A".to_string(), vec!["x".to_string()]);
    let mut state = State::new();
    assert!(check_state(&state, &HandlerRegistry::<Semantic>::new()));
    state.insert("x".to_string(), Action::Shift(1));
    state.insert("y".to_string(), Action::Accept);
    assert!(check_state(&state, &HandlerRegistry::<Semantic>::new()));
    state.insert("z".to_string(), Action::Reduce(derivation()));
    assert!(!check_state(&state, &HandlerRegistry::<Semantic>::new()));
    let mut handlers = HandlerRegistry::<Semantic>::new();
    handlers.register(
        ReduceDerivation::build("A".to_string(), vec![]),
        Box::new(|_| String::new()),
    );
    assert!(!check_state(&state, &handlers));
    handlers.register(derivation(), Box::new(|_| String::new()));
    assert!(check_state(&state, &handlers));
}

#[test]
fn apply_calls_the_handler() {
    let join: Semantic = Box::new(|datas| datas.join("-"));
    assert_eq!(apply(&join, vec!["a".to_string(), "b".to_string()]), "a-b");
    assert_eq!(apply(&join, vec![]), "");
}

#[test]
fn errors_describe_themselves() {
    let syntax = ParseError::SyntaxError { state: 3, symbol: "+".to_string(), position: 1 };
    assert_eq!(syntax.message(), "parsing error: unknown.");
    assert_eq!(ParseError::StackUnderflow.message(), "parsing error: stack is empty.");
    assert_eq!(ParseError::InvalidGoto.message(), "parsing error: invalid Shift action.");
    assert_eq!(
        ParseError::UnexpectedEndOfInput.message(),
        "parsing error: unexpected end of input."
    );
    assert_eq!(ParseError::MissingHandler.message(), "parsing error: missing handler.");
    assert_eq!(ParseError::StepLimitExceeded.message(), "parsing error: step limit exceeded.");
}
