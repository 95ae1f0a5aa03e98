//! Sets of small enumerations kept as strictly ascending vectors, so that the
//! set's contents and its iteration order are both determined.
use vstd::prelude::*;

verus! {

/// An enumeration whose variants are numbered in declaration order.
pub trait Ranked: Copy + Sized {
    spec fn rank(self) -> nat;

    fn rank_of(&self) -> (r: u8)
        ensures
            r as nat == self.rank(),
    ;

    proof fn lemma_rank_injective(a: Self, b: Self)
        ensures
            a.rank() == b.rank() ==> a == b,
    ;
}

/// Strictly ascending by rank: sorted and free of repetitions.
pub open spec fn ascending<T: Ranked>(s: Seq<T>) -> bool {
    forall|i: int, j: int| 0 <= i < j < s.len() ==> (#[trigger] s[i]).rank() < (#[trigger] s[j]).rank()
}

proof fn lemma_insert_ascending<T: Ranked>(before: Seq<T>, i: int, x: T)
    requires
        ascending(before),
        0 <= i <= before.len(),
        forall|j: int| 0 <= j < i ==> (#[trigger] before[j]).rank() < x.rank(),
        i < before.len() ==> before[i].rank() > x.rank(),
    ensures
        ascending(before.insert(i, x)),
        before.insert(i, x).to_set() == before.to_set().insert(x),
        !before.contains(x),
        before.insert(i, x).len() == before.len() + 1,
{
    let items = before.insert(i, x);
    assert forall|a: int, b: int| 0 <= a < b < items.len() implies (#[trigger] items[a]).rank() < (#[trigger] items[b]).rank() by {
        if b < i {
        } else if a < i && b == i {
        } else if a < i && b > i {
            assert(items[b] == before[b - 1]);
        } else if a == i {
            assert(items[b] == before[b - 1]);
            if b - 1 > i {
                assert(before[i].rank() < before[b - 1].rank());
            }
        } else {
            assert(items[a] == before[a - 1]);
            assert(items[b] == before[b - 1]);
        }
    }
    assert forall|j: int| 0 <= j < before.len() implies before[j] != x by {
        if j >= i {
            if j > i {
                assert(before[i].rank() < before[j].rank());
            }
        }
    }
    assert forall|y: T| items.contains(y) <==> before.contains(y) || y == x by {
        if items.contains(y) {
            let j = choose|j: int| 0 <= j < items.len() && items[j] == y;
            if j < i {
                assert(before[j] == y);
            } else if j > i {
                assert(before[j - 1] == y);
            }
        }
        if before.contains(y) {
            let j = choose|j: int| 0 <= j < before.len() && before[j] == y;
            if j < i {
                assert(items[j] == y);
            } else {
                assert(items[j + 1] == y);
            }
        }
        if y == x {
            assert(items[i] == x);
        }
    }
    assert(items.to_set() =~= before.to_set().insert(x));
}

/// A set of enumeration values.
#[derive(Debug, PartialEq, Eq, Hash)]
pub struct EnumSet<T: Ranked> {
    items: Vec<T>,
}

impl<T: Ranked> View for EnumSet<T> {
    type V = Seq<T>;

    closed spec fn view(&self) -> Seq<T> {
        self.items@
    }
}

impl<T: Ranked> EnumSet<T> {
    #[verifier::type_invariant]
    spec fn well_formed(&self) -> bool {
        ascending(self.items@)
    }

    pub fn new() -> (r: Self)
        ensures
            r@ == Seq::<T>::empty(),
    {
        EnumSet { items: Vec::new() }
    }

    /// A set's members fit in memory: their number fits in `usize`.
    pub proof fn lemma_len_fits(&self)
        ensures
            self@.len() <= usize::MAX,
    {
        vstd::std_specs::vec::axiom_spec_len(&self.items);
    }

    pub fn contains(&self, x: &T) -> (r: bool)
        ensures
            r == self@.contains(*x),
    {
        let k = x.rank_of();
        let mut i: usize = 0;
        while i < self.items.len()
            invariant
                i <= self.items@.len(),
                k as nat == (*x).rank(),
                forall|j: int| 0 <= j < i ==> (#[trigger] self.items@[j]).rank() != (*x).rank(),
            decreases self.items@.len() - i,
        {
            if self.items[i].rank_of() == k {
                proof {
                    T::lemma_rank_injective(self.items@[i as int], *x);
                }
                return true;
            }
            i = i + 1;
        }
        proof {
            if self@.contains(*x) {
                let j = choose|j: int| 0 <= j < self.items@.len() && self.items@[j] == *x;
                assert(self.items@[j].rank() != (*x).rank());
            }
        }
        false
    }

    pub fn insert(&mut self, x: T)
        ensures
            final(self)@.to_set() == old(self)@.to_set().insert(x),
            final(self)@.contains(x),
            forall|y: T| old(self)@.contains(y) ==> #[trigger] final(self)@.contains(y),
            forall|y: T| #[trigger] final(self)@.contains(y) ==> y == x || old(self)@.contains(y),
            old(self)@.len() == 0 ==> final(self)@ == seq![x],
            final(self)@.len() == old(self)@.len() + (if old(self)@.contains(x) { 0int } else { 1int }),
    {
        proof {
            use_type_invariant(&*self);
        }
        let k = x.rank_of();
        let mut i: usize = 0;
        while i < self.items.len() && self.items[i].rank_of() < k
            invariant
                i <= self.items@.len(),
                k as nat == x.rank(),
                ascending(self.items@),
                forall|j: int| 0 <= j < i ==> (#[trigger] self.items@[j]).rank() < x.rank(),
            decreases self.items@.len() - i,
        {
            i = i + 1;
        }
        if i < self.items.len() && self.items[i].rank_of() == k {
            proof {
                T::lemma_rank_injective(self.items@[i as int], x);
                assert(self@.to_set().insert(x) =~= self@.to_set());
                assert(self@.contains(x));
            }
            return;
        }
        let ghost before = self.items@;
        proof {
            if i < before.len() {
                assert(before[i as int].rank() != x.rank());
            }
            lemma_insert_ascending(before, i as int, x);
        }
        let mut items: Vec<T> = self.to_vec();
        items.insert(i, x);
        self.items = items;
        proof {
            assert(self@ == before.insert(i as int, x));
            assert forall|y: T| old(self)@.contains(y) implies #[trigger] self@.contains(y) by {
                assert(self@.to_set().contains(y));
            }
            assert forall|y: T| #[trigger] self@.contains(y) implies y == x || old(self)@.contains(y) by {
                assert(self@.to_set().contains(y));
            }
            assert(self@.to_set().contains(x));
            if before.len() == 0 {
                assert(self@ =~= seq![x]);
            }
        }
    }

    pub fn len(&self) -> (r: usize)
        ensures
            r == self@.len(),
    {
        self.items.len()
    }

    pub fn is_empty(&self) -> (r: bool)
        ensures
            r == (self@.len() == 0),
    {
        self.items.len() == 0
    }

    /// The members in ascending order.
    pub fn as_slice(&self) -> (r: &[T])
        ensures
            r@ == self@,
            ascending(r@),
    {
        proof {
            use_type_invariant(self);
        }
        self.items.as_slice()
    }

    /// The members in ascending order, copied.
    pub fn to_vec(&self) -> (r: Vec<T>)
        ensures
            r@ == self@,
            ascending(r@),
    {
        proof {
            use_type_invariant(self);
        }
        let mut out: Vec<T> = Vec::new();
        let mut i: usize = 0;
        while i < self.items.len()
            invariant
                i <= self.items@.len(),
                out@ == self.items@.take(i as int),
            decreases self.items@.len() - i,
        {
            out.push(self.items[i]);
            i = i + 1;
            assert(out@ =~= self.items@.take(i as int));
        }
        assert(out@ =~= self.items@);
        out
    }

    /// The first member, in ascending order, that `other` also holds.
    pub fn first_common(&self, other: &EnumSet<T>) -> (r: Option<T>)
        ensures
            r matches Some(x) ==> self@.contains(x) && other@.contains(x),
            r is None ==> forall|x: T| self@.contains(x) ==> !other@.contains(x),
    {
        let mut i: usize = 0;
        while i < self.items.len()
            invariant
                i <= self.items@.len(),
                forall|j: int| 0 <= j < i ==> !other@.contains(#[trigger] self.items@[j]),
            decreases self.items@.len() - i,
        {
            if other.contains(&self.items[i]) {
                return Some(self.items[i]);
            }
            i = i + 1;
        }
        proof {
            assert forall|x: T| self@.contains(x) implies !other@.contains(x) by {
                let j = choose|j: int| 0 <= j < self.items@.len() && self.items@[j] == x;
                assert(!other@.contains(self.items@[j]));
            }
        }
        None
    }
}

impl<T: Ranked> Clone for EnumSet<T> {
    fn clone(&self) -> (r: Self)
        ensures
            r@ == self@,
    {
        proof {
            use_type_invariant(self);
        }
        let mut out: Vec<T> = Vec::new();
        let mut i: usize = 0;
        while i < self.items.len()
            invariant
                i <= self.items@.len(),
                out@ == self.items@.take(i as int),
            decreases self.items@.len() - i,
        {
            out.push(self.items[i]);
            i = i + 1;
            assert(out@ =~= self.items@.take(i as int));
        }
        assert(out@ =~= self.items@);
        EnumSet { items: out }
    }
}

} // verus!
