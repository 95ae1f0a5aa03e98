//! Named encoder factories, listed in name order.
use vstd::prelude::*;

use crate::output::basic_encoder::BasicEncoder;
use crate::model::error::IoError;
use crate::output::capabilities::EncoderCapability;
use crate::output::encode::{MaterializationContext, MaterializedArtifact, MaterializedNamedArtifact, OutputEncoder};
use crate::output::plan::ArtifactRequest;
use crate::output::logical_disc_iso_encoder::LogicalDiscIsoEncoder;
use crate::text::{seq_lt, str_eq, str_lt, IntoText};

verus! {

/// An encoder behind a pointer, of whatever type.
pub struct BoxedEncoder(pub Box<dyn OutputEncoder>);

/// Whether `e` behaves as `model`: the same plugin id, and the same capability answers
/// and materialization results for every request.
pub open spec fn behaves_as<E: OutputEncoder>(e: BoxedEncoder, model: E) -> bool {
    &&& e.0.encoder_id() == model.encoder_id()
    &&& forall|c: Seq<EncoderCapability>| #[trigger] e.0.offers(c) == model.offers(c)
    &&& forall|n: Seq<char>, a: ArtifactRequest, id: Seq<char>, ctx: MaterializationContext, out: Result<MaterializedArtifact, IoError>|
        #[trigger] e.0.materializes(n, a, id, ctx, out) == model.materializes(n, a, id, ctx, out)
    &&& forall|n: Seq<char>, a: ArtifactRequest, id: Seq<char>, ctx: MaterializationContext, out: Result<Vec<MaterializedNamedArtifact>, IoError>|
        #[trigger] e.0.materializes_set(n, a, id, ctx, out) == model.materializes_set(n, a, id, ctx, out)
}

/// Makes a fresh encoder each time it is asked.
pub trait EncoderFactory {
    /// The plugin id of the encoders this factory makes.
    spec fn made_id(&self) -> Seq<char>;

    /// Whether `e` is an encoder this factory makes.
    spec fn makes(&self, e: BoxedEncoder) -> bool;

    fn create(&self) -> (r: BoxedEncoder)
        ensures
            r.0.encoder_id() == self.made_id(),
            self.makes(r),
    ;
}

/// Makes one of the built-in encoders.
pub enum BuiltinEncoderFactory {
    Basic,
    LogicalDiscIso,
}

impl EncoderFactory for BuiltinEncoderFactory {
    open spec fn made_id(&self) -> Seq<char> {
        match self {
            BuiltinEncoderFactory::Basic => "basic"@,
            BuiltinEncoderFactory::LogicalDiscIso => "logical-disc-iso"@,
        }
    }

    open spec fn makes(&self, e: BoxedEncoder) -> bool {
        match self {
            BuiltinEncoderFactory::Basic => behaves_as(e, BasicEncoder),
            BuiltinEncoderFactory::LogicalDiscIso => behaves_as(e, LogicalDiscIsoEncoder),
        }
    }

    fn create(&self) -> (r: BoxedEncoder) {
        match self {
            BuiltinEncoderFactory::Basic => BoxedEncoder(Box::new(BasicEncoder::new())),
            BuiltinEncoderFactory::LogicalDiscIso => BoxedEncoder(Box::new(LogicalDiscIsoEncoder::new())),
        }
    }
}

/// Strictly ascending names: sorted and free of repetitions.
pub open spec fn names_ascending(names: Seq<Seq<char>>) -> bool {
    forall|i: int, j: int| 0 <= i < j < names.len() ==> seq_lt(#[trigger] names[i], #[trigger] names[j])
}

/// Ascending names are distinct: after any sequence of registrations a name occurs once.
pub proof fn lemma_ascending_names_distinct(names: Seq<Seq<char>>)
    requires
        names_ascending(names),
    ensures
        forall|i: int, j: int| 0 <= i < j < names.len() ==> names[i] != names[j],
{
    assert forall|i: int, j: int| 0 <= i < j < names.len() implies names[i] != names[j] by {
        assert(seq_lt(names[i], names[j]));
        crate::text::lemma_seq_lt_irreflexive(names[i]);
    }
}

/// A factory behind a pointer, of whatever type.
pub struct BoxedFactory(pub Box<dyn EncoderFactory>);

impl EncoderFactory for BoxedFactory {
    open spec fn made_id(&self) -> Seq<char> {
        self.0.made_id()
    }

    open spec fn makes(&self, e: BoxedEncoder) -> bool {
        self.0.makes(e)
    }

    fn create(&self) -> (r: BoxedEncoder) {
        self.0.create()
    }
}

/// Encoder factories by name.
pub struct EncoderRegistry<F: EncoderFactory> {
    names: Vec<String>,
    factories: Vec<F>,
}

impl<F: EncoderFactory> View for EncoderRegistry<F> {
    type V = Seq<Seq<char>>;

    /// The registered names, in ascending order.
    closed spec fn view(&self) -> Seq<Seq<char>> {
        self.names@.map_values(|n: String| n@)
    }
}

impl<F: EncoderFactory> EncoderRegistry<F> {
    #[verifier::type_invariant]
    spec fn well_formed(&self) -> bool {
        &&& names_ascending(self@)
        &&& self.factories@.len() == self.names@.len()
    }

    pub fn new() -> (r: Self)
        ensures
            r@ == Seq::<Seq<char>>::empty(),
    {
        let r = EncoderRegistry { names: Vec::new(), factories: Vec::new() };
        assert(r@ =~= Seq::<Seq<char>>::empty());
        r
    }

    /// Registers `factory` under `name`, replacing a factory of the same name.
    pub fn register(&mut self, name: &str, factory: F)
        ensures
            final(self)@.to_set() == old(self)@.to_set().insert(name@),
            names_ascending(final(self)@),
            forall|i: int| 0 <= i < final(self)@.len() && final(self)@[i] == name@ ==> #[trigger] final(self).factory_at(i) == factory,
            forall|i: int| 0 <= i < final(self)@.len() && final(self)@[i] != name@ ==> exists|j: int| 0 <= j < old(self)@.len()
                && old(self)@[j] == final(self)@[i] && #[trigger] old(self).factory_at(j) == final(self).factory_at(i),
    {
        proof {
            use_type_invariant(&*self);
        }
        let mut taken: EncoderRegistry<F> = EncoderRegistry::new();
        std::mem::swap(&mut taken, self);
        proof {
            use_type_invariant(&taken);
        }
        let EncoderRegistry { mut names, mut factories } = taken;
        let ghost before = names@.map_values(|n: String| n@);
        let ghost before_factories = factories@;
        proof {
            assert(before == old(self)@);
            assert(before_factories == old(self).factories@);
        }
        let mut i: usize = 0;
        while i < names.len() && str_lt(names[i].as_str(), name)
            invariant
                i <= names@.len(),
                before == names@.map_values(|n: String| n@),
                factories@.len() == names@.len(),
                names_ascending(before),
                forall|j: int| 0 <= j < i ==> seq_lt(#[trigger] before[j], name@),
            decreases names@.len() - i,
        {
            i = i + 1;
        }
        let boxed = factory;
        let key = name.into_text();
        if i < names.len() && str_eq(names[i].as_str(), name) {
            names.set(i, key);
            factories.set(i, boxed);
            proof {
                let after = names@.map_values(|n: String| n@);
                assert(before[i as int] == name@);
                assert(after =~= before);
                assert(after.to_set() =~= before.to_set().insert(name@));
                lemma_ascending_names_distinct(before);
                assert forall|k: int| 0 <= k < after.len() && after[k] != name@ implies exists|j: int| 0 <= j < before.len()
                    && before[j] == after[k] && #[trigger] before_factories[j] == factories@[k] by {
                    assert(before_factories[k] == factories@[k]);
                }
            }
        } else {
            names.insert(i, key);
            factories.insert(i, boxed);
            proof {
                let after = names@.map_values(|n: String| n@);
                assert(after =~= before.insert(i as int, name@));
                lemma_insert_names(before, i as int, name@);
                lemma_ascending_names_distinct(after);
                assert forall|k: int| 0 <= k < after.len() && after[k] != name@ implies exists|j: int| 0 <= j < before.len()
                    && before[j] == after[k] && #[trigger] before_factories[j] == factories@[k] by {
                    if k < i {
                        assert(before_factories[k] == factories@[k]);
                    } else {
                        assert(k > i);
                        assert(before_factories[k - 1] == factories@[k]);
                        assert(before[k - 1] == after[k]);
                    }
                }
            }
        }
        *self = EncoderRegistry { names, factories };
        proof {
            assert forall|k: int| 0 <= k < self@.len() && self@[k] == name@ implies #[trigger] self.factory_at(k) == factory by {
                lemma_ascending_names_distinct(self@);
                if k != i {
                    assert(self@[i as int] == name@);
                }
            }
            assert forall|k: int| 0 <= k < self@.len() && self@[k] != name@ implies exists|j: int| 0 <= j < old(self)@.len()
                && old(self)@[j] == self@[k] && #[trigger] old(self).factory_at(j) == self.factory_at(k) by {
                let j = choose|j: int| 0 <= j < before.len() && before[j] == self@[k] && #[trigger] before_factories[j] == self.factories@[k];
                assert(old(self).factory_at(j) == before_factories[j]);
                assert(old(self)@[j] == before[j]);
            }
        }
    }

    /// The factory registered under the `i`-th name in ascending order.
    pub closed spec fn factory_at(&self, i: int) -> F {
        self.factories@[i]
    }

    /// Fresh encoders from every factory, in name order: the `i`-th is made by the factory
    /// registered under the `i`-th name.
    pub fn all(&self) -> (r: Vec<BoxedEncoder>)
        ensures
            r@.len() == self@.len(),
            forall|i: int| 0 <= i < r@.len() ==> self.factory_at(i).makes(#[trigger] r@[i])
                && r@[i].0.encoder_id() == self.factory_at(i).made_id(),
    {
        proof {
            use_type_invariant(self);
        }
        let mut out: Vec<BoxedEncoder> = Vec::new();
        let mut i: usize = 0;
        while i < self.factories.len()
            invariant
                i <= self.factories@.len(),
                self.factories@.len() == self@.len(),
                out@.len() == i,
                forall|j: int| 0 <= j < i ==> self.factory_at(j).makes(#[trigger] out@[j])
                    && out@[j].0.encoder_id() == self.factory_at(j).made_id(),
            decreases self.factories@.len() - i,
        {
            let made = self.factories[i].create();
            out.push(made);
            i = i + 1;
        }
        out
    }

    /// The position of `name` among the registered names.
    fn position(&self, name: &str) -> (r: Option<usize>)
        ensures
            match r {
                Some(i) => i < self@.len() && self@[i as int] == name@ && i < self.factories@.len(),
                None => !self@.contains(name@),
            },
    {
        proof {
            use_type_invariant(self);
        }
        let mut i: usize = 0;
        while i < self.names.len()
            invariant
                i <= self.names@.len(),
                self.factories@.len() == self.names@.len(),
                forall|j: int| 0 <= j < i ==> (#[trigger] self@[j]) != name@,
            decreases self.names@.len() - i,
        {
            if str_eq(self.names[i].as_str(), name) {
                return Some(i);
            }
            i = i + 1;
        }
        None
    }

    /// A fresh encoder from the factory registered under `name`.
    pub fn get(&self, name: &str) -> (r: Option<BoxedEncoder>)
        ensures
            r is Some <==> self@.contains(name@),
            r matches Some(e) ==> exists|i: int| 0 <= i < self@.len() && self@[i] == name@
                && #[trigger] self.factory_at(i).makes(e) && e.0.encoder_id() == self.factory_at(i).made_id(),
    {
        match self.position(name) {
            Some(i) => {
                let made = self.factories[i].create();
                let ghost k: int = i as int;
                let r = Some(made);
                assert(r matches Some(e) && self.factory_at(k).makes(e));
                r
            },
            None => None,
        }
    }

    /// The registered names, in ascending order.
    pub fn names(&self) -> (r: Vec<&str>)
        ensures
            r@.len() == self@.len(),
            forall|i: int| 0 <= i < r@.len() ==> (#[trigger] r@[i])@ == self@[i],
            names_ascending(self@),
    {
        proof {
            use_type_invariant(self);
        }
        let mut out: Vec<&str> = Vec::new();
        let mut i: usize = 0;
        while i < self.names.len()
            invariant
                i <= self.names@.len(),
                out@.len() == i,
                forall|j: int| 0 <= j < i ==> (#[trigger] out@[j])@ == self@[j],
            decreases self.names@.len() - i,
        {
            out.push(self.names[i].as_str());
            i = i + 1;
        }
        out
    }
}

pub(crate) proof fn lemma_insert_names(before: Seq<Seq<char>>, i: int, name: Seq<char>)
    requires
        names_ascending(before),
        0 <= i <= before.len(),
        forall|j: int| 0 <= j < i ==> seq_lt(#[trigger] before[j], name),
        i < before.len() ==> !seq_lt(before[i], name) && before[i] != name,
    ensures
        names_ascending(before.insert(i, name)),
        before.insert(i, name).to_set() == before.to_set().insert(name),
{
    let after = before.insert(i, name);
    if i < before.len() {
        crate::text::lemma_seq_lt_total(before[i], name);
    }
    assert forall|a: int, b: int| 0 <= a < b < after.len() implies seq_lt(#[trigger] after[a], #[trigger] after[b]) by {
        if b < i {
        } else if b == i {
        } else if a < i {
            assert(after[b] == before[b - 1]);
            if b - 1 > i {
                crate::text::lemma_seq_lt_transitive(before[a], before[i], before[b - 1]);
                crate::text::lemma_seq_lt_transitive(before[a], name, before[i]);
            }
            crate::text::lemma_seq_lt_transitive(before[a], name, before[i]);
        } else if a == i {
            assert(after[b] == before[b - 1]);
            if b - 1 > i {
                crate::text::lemma_seq_lt_transitive(name, before[i], before[b - 1]);
            }
        } else {
            assert(after[a] == before[a - 1]);
            assert(after[b] == before[b - 1]);
        }
    }
    assert forall|y: Seq<char>| after.contains(y) <==> before.contains(y) || y == name by {
        if after.contains(y) {
            let j = choose|j: int| 0 <= j < after.len() && after[j] == y;
            if j < i {
                assert(before[j] == y);
            } else if j > i {
                assert(before[j - 1] == y);
            }
        }
        if before.contains(y) {
            let j = choose|j: int| 0 <= j < before.len() && before[j] == y;
            if j < i {
                assert(after[j] == y);
            } else {
                assert(after[j + 1] == y);
            }
        }
        if y == name {
            assert(after[i] == name);
        }
    }
    assert(after.to_set() =~= before.to_set().insert(name));
}

impl<F: EncoderFactory> Default for EncoderRegistry<F> {
    fn default() -> (r: Self)
        ensures
            r@ == Seq::<Seq<char>>::empty(),
    {
        EncoderRegistry::new()
    }
}

/// The registry of built-in encoders: the basic encoder under `basic`.
pub fn default_encoder_registry() -> (r: EncoderRegistry<BuiltinEncoderFactory>)
    ensures
        r@ == seq!["basic"@],
        r.factory_at(0) == BuiltinEncoderFactory::Basic,
{
    let mut registry = EncoderRegistry::new();
    registry.register("basic", BuiltinEncoderFactory::Basic);
    proof {
        assert(Seq::<Seq<char>>::empty().to_set() =~= Set::<Seq<char>>::empty());
        lemma_one_name(registry@, "basic"@);
    }
    registry
}

/// An ascending sequence holding exactly one name is that name alone.
proof fn lemma_one_name(s: Seq<Seq<char>>, a: Seq<char>)
    requires
        names_ascending(s),
        s.to_set() == Set::<Seq<char>>::empty().insert(a),
    ensures
        s == seq![a],
{
    assert(s.to_set().contains(a));
    assert forall|k: int| 0 <= k < s.len() implies (#[trigger] s[k]) == a by {
        assert(s.to_set().contains(s[k]));
    }
    if s.len() > 1 {
        assert(seq_lt(s[0], s[1]));
        crate::text::lemma_seq_lt_irreflexive(a);
    }
    assert(s =~= seq![a]);
}

} // verus!
