//! Derivations, actions and the action table of the automaton.

use vstd::prelude::*;
use crate::tree::texts;

verus! {

/// Compares two string slices with `str`'s `==` from the standard library.
/// Trusted: the result is true exactly when both hold the same characters.
#[verifier::external_body]
pub(crate) fn same_text(a: &str, b: &str) -> (same: bool)
    ensures
        same == (a@ == b@),
{
    a == b
}

/// The mathematical value of a derivation.
pub struct DerivationView {
    pub left: Seq<char>,
    pub right: Seq<Seq<char>>,
}

/// A grammar production: the symbol on the left and the ordered symbols on
/// the right.
#[derive(Clone, Debug, PartialEq, Eq, Hash)]
pub struct ReduceDerivation {
    pub left: String,
    pub right: Vec<String>,
}

impl View for ReduceDerivation {
    type V = DerivationView;

    open spec fn view(&self) -> DerivationView {
        DerivationView { left: self.left@, right: texts(self.right@) }
    }
}

impl ReduceDerivation {
    /// Builds a derivation from its two sides.
    pub fn build(left: String, right: Vec<String>) -> (derivation: Self)
        ensures
            derivation@ == (DerivationView { left: left@, right: texts(right@) }),
            derivation.left == left,
            derivation.right == right,
    {
        ReduceDerivation { left, right }
    }

    /// Structural equality: the same left symbol and the same right symbols
    /// in the same order.
    pub fn same_as(&self, other: &ReduceDerivation) -> (same: bool)
        ensures
            same == (self@ == other@),
    {
        if !same_text(self.left.as_str(), other.left.as_str()) {
            return false;
        }
        if self.right.len() != other.right.len() {
            assert(self@.right.len() != other@.right.len());
            return false;
        }
        let mut i: usize = 0;
        while i < self.right.len()
            invariant
                i <= self.right.len(),
                self.right.len() == other.right.len(),
                self.left@ == other.left@,
                forall|j: int| 0 <= j < i ==> self.right@[j]@ == other.right@[j]@,
            decreases self.right.len() - i,
        {
            if !same_text(self.right[i].as_str(), other.right[i].as_str()) {
                assert(self@.right[i as int] != other@.right[i as int]);
                return false;
            }
            i += 1;
        }
        assert(self@.right =~= other@.right);
        true
    }
}

/// The mathematical value of an action.
pub enum ActionView {
    Shift(usize),
    Reduce(DerivationView),
    Accept,
}

/// What the automaton does in a state on a symbol. A missing entry is the
/// error case; it is not stored.
#[derive(Debug)]
pub enum Action {
    /// Push the symbol and move to the given state. Keyed by a nonterminal,
    /// the entry is the goto transition taken after a reduction.
    Shift(usize),
    /// Replace the right side of the derivation on the stack by its left
    /// symbol.
    Reduce(ReduceDerivation),
    /// The input is a sentence of the grammar.
    Accept,
}

impl View for Action {
    type V = ActionView;

    open spec fn view(&self) -> ActionView {
        match self {
            Action::Shift(next) => ActionView::Shift(*next),
            Action::Reduce(derivation) => ActionView::Reduce(derivation@),
            Action::Accept => ActionView::Accept,
        }
    }
}

/// The action that a list of entries gives for `symbol`: that of the last
/// entry keyed by it, if there is one.
pub open spec fn find_action(entries: Seq<(String, Action)>, symbol: Seq<char>) -> Option<
    ActionView,
>
    decreases entries.len(),
{
    if entries.len() == 0 {
        None
    } else if entries.last().0@ == symbol {
        Some(entries.last().1@)
    } else {
        find_action(entries.drop_last(), symbol)
    }
}

/// One automaton state: a mapping from symbols to actions, kept as the list
/// of insertions, in which a later entry for a symbol replaces an earlier
/// one.
#[derive(Debug)]
pub struct State {
    pub actions: Vec<(String, Action)>,
}

impl View for State {
    type V = Map<Seq<char>, ActionView>;

    open spec fn view(&self) -> Map<Seq<char>, ActionView> {
        Map::new(
            |symbol: Seq<char>| find_action(self.actions@, symbol) is Some,
            |symbol: Seq<char>| find_action(self.actions@, symbol).unwrap(),
        )
    }
}

impl State {
    /// The state with no action.
    pub fn new() -> (state: Self)
        ensures
            state.actions@ == Seq::<(String, Action)>::empty(),
            state@ == Map::<Seq<char>, ActionView>::empty(),
    {
        let state = State { actions: Vec::new() };
        assert(state@ =~= Map::<Seq<char>, ActionView>::empty());
        state
    }

    /// Sets the action for `symbol`, replacing the one it had.
    pub fn insert(&mut self, symbol: String, action: Action)
        ensures
            final(self)@ == old(self)@.insert(symbol@, action@),
    {
        let ghost before = self.actions@;
        self.actions.push((symbol, action));
        proof {
            assert(self.actions@.drop_last() =~= before);
            assert(self@ =~= old(self)@.insert(symbol@, action@));
        }
    }

    /// The action for `symbol`, if the state has one.
    pub fn get(&self, symbol: &str) -> (found: Option<&Action>)
        ensures
            match found {
                Some(action) => self@.contains_key(symbol@) && self@[symbol@] == action@,
                None => !self@.contains_key(symbol@),
            },
    {
        let mut i: usize = self.actions.len();
        assert(self.actions@.take(i as int) =~= self.actions@);
        while i > 0
            invariant
                i <= self.actions.len(),
                find_action(self.actions@, symbol@) == find_action(
                    self.actions@.take(i as int),
                    symbol@,
                ),
            decreases i,
        {
            let ghost prefix = self.actions@.take(i as int);
            i -= 1;
            assert(prefix.drop_last() =~= self.actions@.take(i as int));
            assert(prefix.last() == self.actions@[i as int]);
            if same_text(self.actions[i].0.as_str(), symbol) {
                return Some(&self.actions[i].1);
            }
        }
        None
    }
}

/// The action table: one state per index, state 0 being the initial one.
#[derive(Debug)]
pub struct ActionTable {
    pub states: Vec<State>,
}

impl View for ActionTable {
    type V = Seq<Map<Seq<char>, ActionView>>;

    open spec fn view(&self) -> Seq<Map<Seq<char>, ActionView>> {
        Seq::new(self.states@.len(), |i: int| self.states@[i]@)
    }
}

/// The entry of `table` for `state` and `symbol`; none where the state is no
/// index of the table or has no action for the symbol.
pub open spec fn lookup(
    table: Seq<Map<Seq<char>, ActionView>>,
    state: usize,
    symbol: Seq<char>,
) -> Option<ActionView> {
    if state < table.len() && table[state as int].contains_key(symbol) {
        Some(table[state as int][symbol])
    } else {
        None
    }
}

impl ActionTable {
    /// The table with no state.
    pub fn new() -> (table: Self)
        ensures
            table.states@ == Seq::<State>::empty(),
            table@ == Seq::<Map<Seq<char>, ActionView>>::empty(),
    {
        let table = ActionTable { states: Vec::new() };
        assert(table@ =~= Seq::<Map<Seq<char>, ActionView>>::empty());
        table
    }

    /// The action for `symbol` in `state`, if the table has one. A state
    /// outside the table has no action.
    pub fn get_action(&self, state: usize, symbol: &str) -> (found: Option<&Action>)
        ensures
            match found {
                Some(action) => lookup(self@, state, symbol@) == Some(action@),
                None => lookup(self@, state, symbol@) is None,
            },
    {
        if state < self.states.len() {
            self.states[state].get(symbol)
        } else {
            None
        }
    }
}

} // verus!
