use rparser::automaton::{DUMMY_START_SYMBOL, END_SYMBOL};
use rparser::error::ParseError;
use rparser::handler::{apply, HandlerRegistry};
use rparser::parser::RParser;
use rparser::table::{Action, ActionTable, ReduceDerivation, State};
use rparser::token::{MyToken, Token};
use rparser::tree::ParsingTreeNode;

type Semantic = Box<dyn Fn(Vec<String>) -> String>;

fn pick(index: usize) -> Semantic {
    Box::new(move |datas| datas.get(index).cloned().unwrap_or_default())
}

fn sum() -> Semantic {
    Box::new(|datas| {
        let l: i64 = datas[0].parse().unwrap();
        let r: i64 = datas[2].parse().unwrap();
        (l + r).to_string()
    })
}

fn product() -> Semantic {
    Box::new(|datas| {
        let l: i64 = datas[0].parse().unwrap();
        let r: i64 = datas[2].parse().unwrap();
        (l * r).to_string()
    })
}

fn join() -> Semantic {
    Box::new(|datas| datas.join("|"))
}

fn constant(text: &'static str) -> Semantic {
    Box::new(move |_| text.to_string())
}

fn d(left: &str, right: &[&str]) -> ReduceDerivation {
    ReduceDerivation::build(left.to_string(), right.iter().map(|s| s.to_string()).collect())
}

fn state(entries: Vec<(&str, Action)>) -> State {
    let mut s = State::new();
    for (k, a) in entries {
        s.insert(k.to_string(), a);
    }
    s
}

fn arithmetic_table() -> ActionTable {
    let t_int = || Action::Reduce(d("T", &["int"]));
    let t_mul = || Action::Reduce(d("T", &["int", "*", "T"]));
    let e_t = || Action::Reduce(d("E", &["T"]));
    let e_sum = || Action::Reduce(d("E", &["T", "+", "E"]));
    let t_par = || Action::Reduce(d("T", &["(", "E", ")"]));
    let mut table = ActionTable::new();
    table.states.push(state(vec![
        ("(", Action::Shift(2)),
        ("S", Action::Shift(1)),
        ("E", Action::Shift(11)),
        (END_SYMBOL, Action::Accept),
        ("T", Action::Shift(6)),
        ("int", Action::Shift(3)),
    ]));
    table.states.push(state(vec![(END_SYMBOL, Action::Reduce(d(DUMMY_START_SYMBOL, &["S"])))]));
    table.states.push(state(vec![
        ("int", Action::Shift(3)),
        ("T", Action::Shift(6)),
        ("E", Action::Shift(9)),
        ("(", Action::Shift(2)),
    ]));
    table.states.push(state(vec![
        (")", t_int()),
        ("+", t_int()),
        ("*", Action::Shift(4)),
        (END_SYMBOL, t_int()),
    ]));
    table.states.push(state(vec![
        ("(", Action::Shift(2)),
        ("int", Action::Shift(3)),
        ("T", Action::Shift(5)),
    ]));
    table.states.push(state(vec![("+", t_mul()), (")", t_mul()), (END_SYMBOL, t_mul())]));
    table.states.push(state(vec![(END_SYMBOL, e_t()), (")", e_t()), ("+", Action::Shift(7))]));
    table.states.push(state(vec![
        ("(", Action::Shift(2)),
        ("int", Action::Shift(3)),
        ("E", Action::Shift(8)),
        ("T", Action::Shift(6)),
    ]));
    table.states.push(state(vec![(END_SYMBOL, e_sum()), (")", e_sum())]));
    table.states.push(state(vec![(")", Action::Shift(10))]));
    table.states.push(state(vec![(")", t_par()), (END_SYMBOL, t_par()), ("+", t_par())]));
    table.states.push(state(vec![(END_SYMBOL, Action::Reduce(d("S", &["E"])))]));
    table
}

fn arithmetic_handlers(sum: Semantic) -> HandlerRegistry<Semantic> {
    let mut handlers = HandlerRegistry::new();
    handlers.register(d("S", &["E"]), pick(0));
    handlers.register(d("E", &["T", "+", "E"]), sum);
    handlers.register(d("E", &["T"]), pick(0));
    handlers.register(d("T", &["int", "*", "T"]), product());
    handlers.register(d("T", &["int"]), pick(0));
    handlers.register(d("T", &["(", "E", ")"]), pick(1));
    handlers.register(d(DUMMY_START_SYMBOL, &["S"]), pick(0));
    handlers
}

fn arithmetic_parser() -> RParser<Semantic> {
    RParser::new(arithmetic_table(), arithmetic_handlers(sum())).unwrap()
}

fn tok(symbol: &str, data: &str) -> MyToken {
    MyToken::build(symbol.to_string(), data.to_string())
}

fn end() -> MyToken {
    tok(END_SYMBOL, "")
}

fn symbols(nodes: &[ParsingTreeNode]) -> Vec<String> {
    nodes.iter().map(|n| n.symbol_type.clone()).collect()
}

#[test]
fn product_then_sum_gives_ten() {
    let tokens = vec![
        tok("int", "2"),
        tok("*", "*"),
        tok("int", "3"),
        tok("+", "+"),
        tok("int", "4"),
        end(),
    ];
    let root = arithmetic_parser().parse(tokens).unwrap();
    assert_eq!(root.data, "10");
    assert_eq!(root.symbol_type, DUMMY_START_SYMBOL);
}

#[test]
fn product_of_two_values() {
    let tokens = vec![tok("int", "123"), tok("*", "*"), tok("int", "234"), end()];
    let root = arithmetic_parser().parse(tokens).unwrap();
    assert_eq!(root.data, "28782");
}

#[test]
fn single_value_is_accepted() {
    let root = arithmetic_parser().parse(vec![tok("int", "7"), end()]).unwrap();
    assert_eq!(root.data, "7");
}

#[test]
fn parenthesised_sum_is_multiplied() {
    let tokens = vec![
        tok("int", "2"),
        tok("*", "*"),
        tok("(", "("),
        tok("int", "3"),
        tok("+", "+"),
        tok("int", "4"),
        tok(")", ")"),
        end(),
    ];
    let root = arithmetic_parser().parse(tokens).unwrap();
    assert_eq!(root.data, "14");
}

#[test]
fn leading_operator_is_a_syntax_error_at_position_zero() {
    let result = arithmetic_parser().parse(vec![tok("*", "*"), end()]);
    assert_eq!(
        result,
        Err(ParseError::SyntaxError { state: 0, symbol: "*".to_string(), position: 0 })
    );
}

#[test]
fn syntax_error_reports_state_symbol_and_position() {
    let tokens = vec![tok("int", "1"), tok("+", "+"), tok("+", "+"), end()];
    let result = arithmetic_parser().parse(tokens);
    assert_eq!(
        result,
        Err(ParseError::SyntaxError { state: 7, symbol: "+".to_string(), position: 2 })
    );
}

#[test]
fn unknown_symbol_is_a_syntax_error() {
    let result = arithmetic_parser().parse(vec![tok("int", "1"), tok("?", "?"), end()]);
    assert_eq!(
        result,
        Err(ParseError::SyntaxError { state: 3, symbol: "?".to_string(), position: 1 })
    );
}

#[test]
fn missing_sentinel_is_unexpected_end_of_input() {
    let result = arithmetic_parser().parse(vec![tok("int", "7")]);
    assert_eq!(result, Err(ParseError::UnexpectedEndOfInput));
    let result = arithmetic_parser().parse(vec![tok("int", "2"), tok("*", "*"), tok("int", "3")]);
    assert_eq!(result, Err(ParseError::UnexpectedEndOfInput));
}

#[test]
fn empty_input_is_unexpected_end_of_input() {
    let result = arithmetic_parser().parse(Vec::<MyToken>::new());
    assert_eq!(result, Err(ParseError::UnexpectedEndOfInput));
}

#[test]
fn sentinel_alone_returns_the_bottom_placeholder() {
    let root = arithmetic_parser().parse(vec![end()]).unwrap();
    assert_eq!(root, ParsingTreeNode::build(DUMMY_START_SYMBOL.to_string(), String::new(), vec![]));
}

#[test]
fn repeated_parses_agree() {
    let parser = arithmetic_parser();
    let tokens = vec![
        tok("int", "2"),
        tok("*", "*"),
        tok("int", "3"),
        tok("+", "+"),
        tok("int", "4"),
        end(),
    ];
    let first = parser.parse(tokens.clone());
    let second = parser.parse(tokens.clone());
    let third = arithmetic_parser().parse(tokens);
    assert_eq!(first, second);
    assert_eq!(first, third);
    let bad = vec![tok("*", "*"), end()];
    assert_eq!(parser.parse(bad.clone()), parser.parse(bad));
}

#[test]
fn handler_receives_data_in_production_order() {
    let parser = RParser::new(arithmetic_table(), arithmetic_handlers(join())).unwrap();
    let tokens = vec![tok("int", "1"), tok("+", "plus"), tok("int", "2"), end()];
    let root = parser.parse(tokens).unwrap();
    assert_eq!(root.data, "1|plus|2");
}

#[test]
fn tree_mirrors_the_derivations() {
    let tokens = vec![tok("int", "2"), tok("*", "*"), tok("int", "3"), end()];
    let root = arithmetic_parser().parse(tokens).unwrap();
    assert_eq!(symbols(&root.children), vec!["S"]);
    let s = &root.children[0];
    assert_eq!(symbols(&s.children), vec!["E"]);
    let e = &s.children[0];
    assert_eq!(symbols(&e.children), vec!["T"]);
    let t = &e.children[0];
    assert_eq!(t.data, "6");
    assert_eq!(symbols(&t.children), vec!["int", "*", "T"]);
    assert_eq!(t.children[0].data, "2");
    assert!(t.children[0].children.is_empty());
    assert_eq!(t.children[1].data, "*");
    let inner = &t.children[2];
    assert_eq!(inner.data, "3");
    assert_eq!(symbols(&inner.children), vec!["int"]);
    assert_eq!(
        inner.children[0],
        ParsingTreeNode::build("int".to_string(), "3".to_string(), vec![])
    );
}

#[test]
fn sum_node_has_three_children_in_order() {
    let tokens = vec![tok("int", "1"), tok("+", "+"), tok("int", "2"), end()];
    let root = arithmetic_parser().parse(tokens).unwrap();
    let e = &root.children[0].children[0];
    assert_eq!(e.symbol_type, "E");
    assert_eq!(e.data, "3");
    assert_eq!(symbols(&e.children), vec!["T", "+", "E"]);
}

#[test]
fn reduction_longer_than_the_stack_underflows() {
    let mut table = ActionTable::new();
    table.states.push(state(vec![("x", Action::Reduce(d("A", &["x", "y", "z"])))]));
    let mut handlers = HandlerRegistry::new();
    handlers.register(d("A", &["x", "y", "z"]), join());
    let parser = RParser::new(table, handlers).unwrap();
    assert_eq!(parser.parse(vec![tok("x", "x"), end()]), Err(ParseError::StackUnderflow));
}

#[test]
fn reduction_without_goto_is_invalid() {
    let mut table = ActionTable::new();
    table.states.push(state(vec![("x", Action::Reduce(d("A", &[])))]));
    let mut handlers = HandlerRegistry::new();
    handlers.register(d("A", &[]), join());
    let parser = RParser::new(table, handlers).unwrap();
    assert_eq!(parser.parse(vec![tok("x", "x"), end()]), Err(ParseError::InvalidGoto));
}

#[test]
fn goto_that_is_no_shift_is_invalid() {
    let mut table = ActionTable::new();
    table.states.push(state(vec![("x", Action::Reduce(d("A", &[]))), ("A", Action::Accept)]));
    let mut handlers = HandlerRegistry::new();
    handlers.register(d("A", &[]), join());
    let parser = RParser::new(table, handlers).unwrap();
    assert_eq!(parser.parse(vec![tok("x", "x"), end()]), Err(ParseError::InvalidGoto));
}

#[test]
fn reduction_that_empties_the_stack_is_invalid() {
    let mut table = ActionTable::new();
    table.states.push(state(vec![
        ("x", Action::Reduce(d("A", &["bottom"]))),
        ("A", Action::Shift(0)),
    ]));
    let mut handlers = HandlerRegistry::new();
    handlers.register(d("A", &["bottom"]), join());
    let parser = RParser::new(table, handlers).unwrap();
    assert_eq!(parser.parse(vec![tok("x", "x"), end()]), Err(ParseError::InvalidGoto));
}

#[test]
fn goto_into_a_state_outside_the_table_is_a_syntax_error() {
    let mut table = ActionTable::new();
    table.states.push(state(vec![("x", Action::Shift(5))]));
    let parser = RParser::new(table, HandlerRegistry::<Semantic>::new()).unwrap();
    assert_eq!(
        parser.parse(vec![tok("x", "a"), tok("x", "b"), end()]),
        Err(ParseError::SyntaxError { state: 5, symbol: "x".to_string(), position: 1 })
    );
}

#[test]
fn table_without_handler_is_rejected() {
    let mut handlers = HandlerRegistry::new();
    handlers.register(d("S", &["E"]), pick(0));
    assert!(matches!(
        RParser::new(arithmetic_table(), handlers),
        Err(ParseError::MissingHandler)
    ));
    assert!(matches!(
        RParser::new(arithmetic_table(), HandlerRegistry::<Semantic>::new()),
        Err(ParseError::MissingHandler)
    ));
}

#[test]
fn replaced_reduce_entry_needs_no_handler() {
    let mut s = State::new();
    s.insert("x".to_string(), Action::Reduce(d("A", &["x"])));
    s.insert("x".to_string(), Action::Shift(0));
    let mut table = ActionTable::new();
    table.states.push(s);
    assert!(RParser::new(table, HandlerRegistry::<Semantic>::new()).is_ok());
}

#[test]
fn endless_reductions_hit_the_step_limit() {
    let mut table = ActionTable::new();
    table.states.push(state(vec![
        ("x", Action::Reduce(d("A", &[]))),
        ("A", Action::Shift(0)),
    ]));
    let mut handlers = HandlerRegistry::new();
    handlers.register(d("A", &[]), join());
    let parser = RParser::new(table, handlers).unwrap().with_step_limit(1000);
    assert_eq!(parser.parse(vec![tok("x", "x"), end()]), Err(ParseError::StepLimitExceeded));
}

#[test]
fn step_limit_counts_every_step() {
    // int END: shift, T->int, E->T, S->E, wrap, accept: six steps.
    let tokens = vec![tok("int", "7"), end()];
    let parser = arithmetic_parser().with_step_limit(5);
    assert_eq!(parser.parse(tokens.clone()), Err(ParseError::StepLimitExceeded));
    let parser = arithmetic_parser().with_step_limit(6);
    assert_eq!(parser.parse(tokens).unwrap().data, "7");
    let parser = arithmetic_parser().with_step_limit(0);
    assert_eq!(parser.parse(vec![end()]), Err(ParseError::StepLimitExceeded));
}

#[test]
fn get_action_finds_entries() {
    let table = arithmetic_table();
    assert!(matches!(table.get_action(0, "int"), Some(Action::Shift(3))));
    assert!(matches!(table.get_action(0, END_SYMBOL), Some(Action::Accept)));
    match table.get_action(3, "+") {
        Some(Action::Reduce(derivation)) => assert_eq!(*derivation, d("T", &["int"])),
        other => panic!("unexpected action {:?}", other),
    }
}

#[test]
fn get_action_fails_cleanly() {
    let table = arithmetic_table();
    assert!(table.get_action(0, "*").is_none());
    assert!(table.get_action(0, "in").is_none());
    assert!(table.get_action(12, "int").is_none());
    assert!(table.get_action(usize::MAX, "int").is_none());
    assert!(ActionTable::new().get_action(0, "int").is_none());
}

#[test]
fn later_action_replaces_earlier() {
    let mut s = State::new();
    assert!(s.get("a").is_none());
    s.insert("a".to_string(), Action::Shift(1));
    s.insert("b".to_string(), Action::Accept);
    s.insert("a".to_string(), Action::Shift(2));
    assert!(matches!(s.get("a"), Some(Action::Shift(2))));
    assert!(matches!(s.get("b"), Some(Action::Accept)));
    assert!(s.get("c").is_none());
}

#[test]
fn last_registration_wins() {
    let mut handlers = HandlerRegistry::<Semantic>::new();
    assert!(handlers.resolve(&d("A", &["x"])).is_none());
    assert!(!handlers.register(d("A", &["x"]), constant("first")));
    assert!(!handlers.register(d("B", &["x"]), constant("other")));
    assert!(handlers.register(d("A", &["x"]), constant("second")));
    assert_eq!(apply(handlers.resolve(&d("A", &["x"])).unwrap(), vec![]), "second");
    assert_eq!(apply(handlers.resolve(&d("B", &["x"])).unwrap(), vec![]), "other");
    assert!(handlers.resolve(&d("A", &["x", "x"])).is_none());
    assert!(handlers.resolve(&d("A", &[])).is_none());
}

#[test]
fn derivations_compare_structurally() {
    let a = d("E", &["T", "+", "E"]);
    assert!(a.same_as(&d("E", &["T", "+", "E"])));
    assert!(!a.same_as(&d("T", &["T", "+", "E"])));
    assert!(!a.same_as(&d("E", &["T", "+"])));
    assert!(!a.same_as(&d("E", &["T", "*", "E"])));
    assert!(!a.same_as(&d("E", &["E", "+", "T"])));
    assert!(d("E", &[]).same_as(&d("E", &[])));
    assert_eq!(a, a.clone());
}

#[test]
fn token_becomes_a_leaf() {
    let node = tok("int", "42").to_tree_node();
    assert_eq!(node, ParsingTreeNode::build("int".to_string(), "42".to_string(), vec![]));
    assert_eq!(node.symbol_type, "int");
    assert_eq!(node.data, "42");
    assert!(node.children.is_empty());
}
