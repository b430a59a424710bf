//! Semantic actions and the registry that finds them by derivation.
//!
//! A handler is a function value that takes the data of the children of a
//! reduction, in production order, and returns the data of the new node. The
//! registry holds only handlers that accept every input and whose result is
//! determined by the text they are given, so that each one stands for a
//! mathematical function on sequences of text.

use vstd::prelude::*;
use crate::table::{DerivationView, ReduceDerivation};
use crate::tree::texts;

verus! {

/// The handler may be called on every list of data.
pub open spec fn is_total<F: Fn(Vec<String>) -> String>(handler: F) -> bool {
    forall|datas: Vec<String>| #[trigger] call_requires(handler, (datas,))
}

/// The text that the handler returns depends on nothing but the text that it
/// is given.
pub open spec fn is_pure<F: Fn(Vec<String>) -> String>(handler: F) -> bool {
    forall|d1: Vec<String>, o1: String, d2: Vec<String>, o2: String|
        #[trigger] call_ensures(handler, (d1,), o1) && #[trigger] call_ensures(handler, (d2,), o2)
            && texts(d1@) == texts(d2@) ==> o1@ == o2@
}

/// The text `out` is a result of the handler on the texts `datas`.
pub open spec fn yields<F: Fn(Vec<String>) -> String>(
    handler: F,
    datas: Seq<Seq<char>>,
    out: Seq<char>,
) -> bool {
    exists|d: Vec<String>, o: String|
        texts(d@) == datas && #[trigger] call_ensures(handler, (d,), o) && o@ == out
}

/// The function that a total and pure handler computes.
pub open spec fn value_of<F: Fn(Vec<String>) -> String>(handler: F, datas: Seq<Seq<char>>) -> Seq<
    char,
> {
    choose|out: Seq<char>| yields(handler, datas, out)
}

/// Calls the handler on the children's data.
pub fn apply<F: Fn(Vec<String>) -> String>(handler: &F, datas: Vec<String>) -> (data: String)
    requires
        is_total(*handler),
        is_pure(*handler),
    ensures
        data@ == value_of(*handler, texts(datas@)),
{
    let ghost given = datas;
    assert(call_requires(*handler, (datas,)));
    let data = handler(datas);
    proof {
        assert(call_ensures(*handler, (given,), data));
        assert(yields(*handler, texts(given@), data@));
        let chosen = value_of(*handler, texts(given@));
        assert(yields(*handler, texts(given@), chosen));
    }
    data
}

/// The handler that a list of registrations gives for `derivation`: that of
/// the last registration under an equal derivation, if there is one.
pub open spec fn find_handler<F>(
    entries: Seq<(ReduceDerivation, F)>,
    derivation: DerivationView,
) -> Option<F>
    decreases entries.len(),
{
    if entries.len() == 0 {
        None
    } else if entries.last().0@ == derivation {
        Some(entries.last().1)
    } else {
        find_handler(entries.drop_last(), derivation)
    }
}

/// The handlers of a grammar, one per derivation, each of them total and
/// pure.
pub struct HandlerRegistry<F: Fn(Vec<String>) -> String> {
    entries: Vec<(ReduceDerivation, F)>,
}

impl<F: Fn(Vec<String>) -> String> HandlerRegistry<F> {
    #[verifier::type_invariant]
    spec fn sound(&self) -> bool {
        forall|i: int|
            0 <= i < self.entries@.len() ==> is_total((#[trigger] self.entries@[i]).1) && is_pure(
                self.entries@[i].1,
            )
    }

    /// The handler registered for `derivation`, if any.
    pub closed spec fn handler_of(&self, derivation: DerivationView) -> Option<F> {
        find_handler(self.entries@, derivation)
    }

    /// The registry with no handler.
    pub fn new() -> (registry: Self)
        ensures
            forall|derivation: DerivationView| registry.handler_of(derivation) is None,
    {
        HandlerRegistry { entries: Vec::new() }
    }

    /// Registers `handler` for `derivation`. A handler registered earlier for
    /// an equal derivation is replaced; all others stay. Tells whether one
    /// was replaced.
    pub fn register(&mut self, derivation: ReduceDerivation, handler: F) -> (replaced: bool)
        requires
            is_total(handler),
            is_pure(handler),
        ensures
            replaced == old(self).handler_of(derivation@) is Some,
            final(self).handler_of(derivation@) == Some(handler),
            forall|other: DerivationView|
                other != derivation@ ==> final(self).handler_of(other) == old(self).handler_of(
                    other,
                ),
    {
        proof {
            use_type_invariant(&*self);
        }
        let ghost before = self.entries@;
        let replaced = self.resolve(&derivation).is_some();
        let mut taken = HandlerRegistry { entries: Vec::new() };
        core::mem::swap(self, &mut taken);
        let mut entries = taken.entries;
        entries.push((derivation, handler));
        assert(entries@.drop_last() =~= before);
        *self = HandlerRegistry { entries };
        replaced
    }

    /// The handler registered for `derivation`, if any. A handler that is
    /// found is total and pure.
    pub fn resolve(&self, derivation: &ReduceDerivation) -> (found: Option<&F>)
        ensures
            match found {
                Some(handler) => self.handler_of(derivation@) == Some(*handler) && is_total(
                    *handler,
                ) && is_pure(*handler),
                None => self.handler_of(derivation@) is None,
            },
    {
        proof {
            use_type_invariant(self);
        }
        let mut i: usize = self.entries.len();
        assert(self.entries@.take(i as int) =~= self.entries@);
        while i > 0
            invariant
                i <= self.entries.len(),
                self.sound(),
                find_handler(self.entries@, derivation@) == find_handler(
                    self.entries@.take(i as int),
                    derivation@,
                ),
            decreases i,
        {
            let ghost prefix = self.entries@.take(i as int);
            i -= 1;
            assert(prefix.drop_last() =~= self.entries@.take(i as int));
            assert(prefix.last() == self.entries@[i as int]);
            if self.entries[i].0.same_as(derivation) {
                return Some(&self.entries[i].1);
            }
        }
        None
    }
}

} // verus!
