//! Named presenter factories, listed in name order.
use vstd::prelude::*;

use crate::output::encoder_registry::{lemma_ascending_names_distinct, lemma_insert_names, names_ascending};
use crate::output::present::OutputPresenter;
use crate::text::{seq_lt, str_eq, str_lt, IntoText};

verus! {

/// Makes a fresh presenter each time it is asked.
pub trait PresenterFactory {
    type Presenter: OutputPresenter;

    fn create(&self) -> Self::Presenter;
}

/// Presenter factories by name.
pub struct PresenterRegistry<F: PresenterFactory> {
    names: Vec<String>,
    factories: Vec<F>,
}

impl<F: PresenterFactory> View for PresenterRegistry<F> {
    type V = Seq<Seq<char>>;

    /// The registered names, in ascending order.
    closed spec fn view(&self) -> Seq<Seq<char>> {
        self.names@.map_values(|n: String| n@)
    }
}

impl<F: PresenterFactory> PresenterRegistry<F> {
    #[verifier::type_invariant]
    spec fn well_formed(&self) -> bool {
        &&& names_ascending(self@)
        &&& self.factories@.len() == self.names@.len()
    }

    pub fn new() -> (r: Self)
        ensures
            r@ == Seq::<Seq<char>>::empty(),
    {
        let r = PresenterRegistry { names: Vec::new(), factories: Vec::new() };
        assert(r@ =~= Seq::<Seq<char>>::empty());
        r
    }

    /// Registers `factory` under `name`, replacing a factory of the same name.
    pub fn register(&mut self, name: &str, factory: F)
        ensures
            final(self)@.to_set() == old(self)@.to_set().insert(name@),
            names_ascending(final(self)@),
            forall|i: int| 0 <= i < final(self)@.len() && final(self)@[i] == name@ ==> #[trigger] final(self).factory_at(i) == factory,
            forall|i: int| 0 <= i < final(self)@.len() && final(self)@[i] != name@ ==> exists|j: int| 0 <= j < old(self)@.len()
                && old(self)@[j] == final(self)@[i] && #[trigger] old(self).factory_at(j) == final(self).factory_at(i),
    {
        proof {
            use_type_invariant(&*self);
        }
        let mut taken: PresenterRegistry<F> = PresenterRegistry::new();
        std::mem::swap(&mut taken, self);
        proof {
            use_type_invariant(&taken);
        }
        let PresenterRegistry { mut names, mut factories } = taken;
        let ghost before = names@.map_values(|n: String| n@);
        let ghost before_factories = factories@;
        proof {
            assert(before == old(self)@);
            assert(before_factories == old(self).factories@);
        }
        let mut i: usize = 0;
        while i < names.len() && str_lt(names[i].as_str(), name)
            invariant
                i <= names@.len(),
                before == names@.map_values(|n: String| n@),
                factories@.len() == names@.len(),
                names_ascending(before),
                forall|j: int| 0 <= j < i ==> seq_lt(#[trigger] before[j], name@),
            decreases names@.len() - i,
        {
            i = i + 1;
        }
        let key = name.into_text();
        if i < names.len() && str_eq(names[i].as_str(), name) {
            names.set(i, key);
            factories.set(i, factory);
            proof {
                let after = names@.map_values(|n: String| n@);
                assert(before[i as int] == name@);
                assert(after =~= before);
                assert(after.to_set() =~= before.to_set().insert(name@));
                lemma_ascending_names_distinct(before);
                assert forall|k: int| 0 <= k < after.len() && after[k] != name@ implies exists|j: int| 0 <= j < before.len()
                    && before[j] == after[k] && #[trigger] before_factories[j] == factories@[k] by {
                    assert(before_factories[k] == factories@[k]);
                }
            }
        } else {
            names.insert(i, key);
            factories.insert(i, factory);
            proof {
                let after = names@.map_values(|n: String| n@);
                assert(after =~= before.insert(i as int, name@));
                lemma_insert_names(before, i as int, name@);
                lemma_ascending_names_distinct(after);
                assert forall|k: int| 0 <= k < after.len() && after[k] != name@ implies exists|j: int| 0 <= j < before.len()
                    && before[j] == after[k] && #[trigger] before_factories[j] == factories@[k] by {
                    if k < i {
                        assert(before_factories[k] == factories@[k]);
                    } else {
                        assert(k > i);
                        assert(before_factories[k - 1] == factories@[k]);
                        assert(before[k - 1] == after[k]);
                    }
                }
            }
        }
        *self = PresenterRegistry { names, factories };
        proof {
            assert forall|k: int| 0 <= k < self@.len() && self@[k] == name@ implies #[trigger] self.factory_at(k) == factory by {
                lemma_ascending_names_distinct(self@);
                if k != i {
                    assert(self@[i as int] == name@);
                }
            }
            assert forall|k: int| 0 <= k < self@.len() && self@[k] != name@ implies exists|j: int| 0 <= j < old(self)@.len()
                && old(self)@[j] == self@[k] && #[trigger] old(self).factory_at(j) == self.factory_at(k) by {
                let j = choose|j: int| 0 <= j < before.len() && before[j] == self@[k] && #[trigger] before_factories[j] == self.factories@[k];
                assert(old(self).factory_at(j) == before_factories[j]);
                assert(old(self)@[j] == before[j]);
            }
        }
    }

    /// The factory registered under the `i`-th name in ascending order.
    pub closed spec fn factory_at(&self, i: int) -> F {
        self.factories@[i]
    }

    /// The position of `name` among the registered names.
    fn position(&self, name: &str) -> (r: Option<usize>)
        ensures
            match r {
                Some(i) => i < self@.len() && self@[i as int] == name@ && i < self.factories@.len(),
                None => !self@.contains(name@),
            },
    {
        proof {
            use_type_invariant(self);
        }
        let mut i: usize = 0;
        while i < self.names.len()
            invariant
                i <= self.names@.len(),
                self.factories@.len() == self.names@.len(),
                forall|j: int| 0 <= j < i ==> (#[trigger] self@[j]) != name@,
            decreases self.names@.len() - i,
        {
            if str_eq(self.names[i].as_str(), name) {
                return Some(i);
            }
            i = i + 1;
        }
        None
    }

    /// A fresh presenter from the factory registered under `name`: one that this factory's
    /// `create` can return.
    pub fn get(&self, name: &str) -> (r: Option<F::Presenter>)
        ensures
            r is Some <==> self@.contains(name@),
            r matches Some(p) ==> exists|i: int| 0 <= i < self@.len() && self@[i] == name@
                && #[trigger] call_ensures(F::create, (&self.factory_at(i),), p),
    {
        match self.position(name) {
            Some(i) => {
                let made = self.factories[i].create();
                let ghost k: int = i as int;
                let r = Some(made);
                assert(r matches Some(p) && call_ensures(F::create, (&self.factory_at(k),), p));
                r
            },
            None => None,
        }
    }

    /// The registered names, in ascending order.
    pub fn names(&self) -> (r: Vec<&str>)
        ensures
            r@.len() == self@.len(),
            forall|i: int| 0 <= i < r@.len() ==> (#[trigger] r@[i])@ == self@[i],
            names_ascending(self@),
    {
        proof {
            use_type_invariant(self);
        }
        let mut out: Vec<&str> = Vec::new();
        let mut i: usize = 0;
        while i < self.names.len()
            invariant
                i <= self.names@.len(),
                out@.len() == i,
                forall|j: int| 0 <= j < i ==> (#[trigger] out@[j])@ == self@[j],
            decreases self.names@.len() - i,
        {
            out.push(self.names[i].as_str());
            i = i + 1;
        }
        out
    }
}

impl<F: PresenterFactory> Default for PresenterRegistry<F> {
    fn default() -> (r: Self)
        ensures
            r@ == Seq::<Seq<char>>::empty(),
    {
        PresenterRegistry::new()
    }
}

} // verus!
