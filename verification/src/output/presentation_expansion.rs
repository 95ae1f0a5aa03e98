//! Helpers that expand a game into the discs it is presented as.
use vstd::prelude::*;

use crate::model::content::{DiscPart, GameContent, GamePart};

verus! {

/// A game made entirely of two or more disc parts.
pub open spec fn spec_is_multi_disc(game: GameContent) -> bool {
    game.parts@.len() > 1 && forall|i: int| 0 <= i < game.parts@.len() ==> (#[trigger] game.parts@[i]) is Disc
}

/// The disc number of the part at position `p`, which is a disc.
pub open spec fn number_at(parts: Seq<GamePart>, p: int) -> u32 {
    parts[p]->Disc_0.disc_number
}

/// Among `sorted`, the index of the first position whose disc is numbered above `n`,
/// or the length when there is none.
pub open spec fn first_above(parts: Seq<GamePart>, sorted: Seq<int>, n: u32) -> int
    decreases sorted.len(),
{
    if sorted.len() == 0 {
        0
    } else if number_at(parts, sorted[0]) > n {
        0
    } else {
        1 + first_above(parts, sorted.drop_first(), n)
    }
}

/// The positions of the disc parts among the first `n` parts, stably sorted by disc
/// number: each disc goes after every earlier disc whose number is not above its own.
pub open spec fn sorted_positions(parts: Seq<GamePart>, n: int) -> Seq<int>
    decreases n,
{
    if n <= 0 {
        Seq::empty()
    } else {
        let sorted = sorted_positions(parts, n - 1);
        if parts[n - 1] is Disc {
            sorted.insert(first_above(parts, sorted, number_at(parts, n - 1)), n - 1)
        } else {
            sorted
        }
    }
}

/// The disc parts of a game in presentation order.
pub open spec fn spec_sorted_discs(parts: Seq<GamePart>) -> Seq<DiscPart> {
    sorted_positions(parts, parts.len() as int).map_values(|p: int| parts[p]->Disc_0)
}

/// Disc numbers never decrease along the positions.
pub open spec fn numbers_ascending(parts: Seq<GamePart>, sorted: Seq<int>) -> bool {
    forall|i: int, j: int| 0 <= i < j < sorted.len() ==> number_at(parts, #[trigger] sorted[i]) <= number_at(parts, #[trigger] sorted[j])
}

/// Every position is a disc below `n`, and each such disc occurs once.
pub open spec fn positions_of_discs(parts: Seq<GamePart>, n: int, sorted: Seq<int>) -> bool {
    &&& forall|i: int| 0 <= i < sorted.len() ==> 0 <= #[trigger] sorted[i] < n && parts[sorted[i]] is Disc
    &&& forall|i: int, j: int| 0 <= i < j < sorted.len() ==> #[trigger] sorted[i] != #[trigger] sorted[j]
    &&& forall|p: int| 0 <= p < n && (#[trigger] parts[p]) is Disc ==> sorted.contains(p)
}

proof fn lemma_first_above(parts: Seq<GamePart>, sorted: Seq<int>, n: u32)
    ensures
        0 <= first_above(parts, sorted, n) <= sorted.len(),
        forall|i: int| 0 <= i < first_above(parts, sorted, n) ==> number_at(parts, #[trigger] sorted[i]) <= n,
        first_above(parts, sorted, n) < sorted.len() ==> number_at(parts, sorted[first_above(parts, sorted, n)]) > n,
    decreases sorted.len(),
{
    if sorted.len() > 0 && number_at(parts, sorted[0]) <= n {
        lemma_first_above(parts, sorted.drop_first(), n);
        assert forall|i: int| 0 <= i < first_above(parts, sorted, n) implies number_at(parts, #[trigger] sorted[i]) <= n by {
            if i > 0 {
                assert(sorted[i] == sorted.drop_first()[i - 1]);
            }
        }
    }
}

/// The presentation order lists every disc part exactly once, by ascending disc number.
pub proof fn lemma_sorted_positions(parts: Seq<GamePart>, n: int)
    requires
        0 <= n <= parts.len(),
    ensures
        numbers_ascending(parts, sorted_positions(parts, n)),
        positions_of_discs(parts, n, sorted_positions(parts, n)),
    decreases n,
{
    if n > 0 {
        let sorted = sorted_positions(parts, n - 1);
        lemma_sorted_positions(parts, n - 1);
        if parts[n - 1] is Disc {
            let k = number_at(parts, n - 1);
            lemma_first_above(parts, sorted, k);
            let p = first_above(parts, sorted, k);
            let out = sorted.insert(p, n - 1);
            assert forall|i: int, j: int| 0 <= i < j < out.len() implies number_at(parts, #[trigger] out[i]) <= number_at(parts, #[trigger] out[j]) by {
                if j < p {
                    assert(out[i] == sorted[i] && out[j] == sorted[j]);
                } else if j == p {
                    assert(out[i] == sorted[i]);
                } else if i < p {
                    assert(out[i] == sorted[i] && out[j] == sorted[j - 1]);
                    if p < sorted.len() {
                        assert(number_at(parts, sorted[p]) > k);
                    }
                } else if i == p {
                    assert(out[j] == sorted[j - 1]);
                    assert(number_at(parts, sorted[p]) > k);
                    if j - 1 > p {
                        assert(number_at(parts, sorted[p]) <= number_at(parts, sorted[j - 1]));
                    }
                } else {
                    assert(out[i] == sorted[i - 1] && out[j] == sorted[j - 1]);
                }
            }
            assert forall|i: int| 0 <= i < out.len() implies 0 <= #[trigger] out[i] < n && parts[out[i]] is Disc by {
                if i < p {
                    assert(out[i] == sorted[i]);
                } else if i > p {
                    assert(out[i] == sorted[i - 1]);
                }
            }
            assert forall|i: int, j: int| 0 <= i < j < out.len() implies #[trigger] out[i] != #[trigger] out[j] by {
                if i < p && j < p {
                    assert(out[i] == sorted[i] && out[j] == sorted[j]);
                } else if i < p && j > p {
                    assert(out[i] == sorted[i] && out[j] == sorted[j - 1]);
                } else if i > p {
                    assert(out[i] == sorted[i - 1] && out[j] == sorted[j - 1]);
                } else if i == p {
                    assert(out[j] == sorted[j - 1]);
                } else {
                    assert(out[i] == sorted[i]);
                }
            }
            assert forall|q: int| 0 <= q < n && (#[trigger] parts[q]) is Disc implies out.contains(q) by {
                if q == n - 1 {
                    assert(out[p] == q);
                } else {
                    assert(sorted.contains(q));
                    let j = choose|j: int| 0 <= j < sorted.len() && sorted[j] == q;
                    if j < p {
                        assert(out[j] == q);
                    } else {
                        assert(out[j + 1] == q);
                    }
                }
            }
        } else {
            assert forall|q: int| 0 <= q < n && (#[trigger] parts[q]) is Disc implies sorted.contains(q) by {
            }
        }
    }
}

/// Whether a game consists entirely of several disc parts.
pub fn is_multi_disc_game(game: &GameContent) -> (r: bool)
    ensures
        r == spec_is_multi_disc(*game),
{
    if game.parts.len() <= 1 {
        return false;
    }
    let mut i: usize = 0;
    while i < game.parts.len()
        invariant
            i <= game.parts@.len(),
            forall|j: int| 0 <= j < i ==> (#[trigger] game.parts@[j]) is Disc,
        decreases game.parts@.len() - i,
    {
        match &game.parts[i] {
            GamePart::Disc(_) => {},
            GamePart::Rom(_) => {
                return false;
            },
        }
        i = i + 1;
    }
    true
}

/// Inserts the disc at position `q` after every disc whose number is not above its own.
fn insert_by_number<'a>(game: &'a GameContent, sorted: &mut Vec<(usize, &'a DiscPart)>, q: usize, disc: &'a DiscPart)
    requires
        q < game.parts@.len(),
        game.parts@[q as int] == GamePart::Disc(*disc),
        forall|i: int| 0 <= i < old(sorted)@.len() ==> (#[trigger] old(sorted)@[i]).0 < game.parts@.len()
            && game.parts@[old(sorted)@[i].0 as int] == GamePart::Disc(*old(sorted)@[i].1),
    ensures
        positions(final(sorted)@) == positions(old(sorted)@).insert(
            first_above(game.parts@, positions(old(sorted)@), disc.disc_number),
            q as int,
        ),
        forall|i: int| 0 <= i < final(sorted)@.len() ==> (#[trigger] final(sorted)@[i]).0 < game.parts@.len()
            && game.parts@[final(sorted)@[i].0 as int] == GamePart::Disc(*final(sorted)@[i].1),
{
    let ghost before = positions(sorted@);
    let mut p: usize = 0;
    assert(before.skip(0) =~= before);
    while p < sorted.len() && sorted[p].1.disc_number <= disc.disc_number
        invariant
            p <= sorted@.len(),
            sorted@ == old(sorted)@,
            before == positions(sorted@),
            forall|i: int| 0 <= i < sorted@.len() ==> (#[trigger] sorted@[i]).0 < game.parts@.len()
                && game.parts@[sorted@[i].0 as int] == GamePart::Disc(*sorted@[i].1),
            first_above(game.parts@, before, disc.disc_number) == p + first_above(game.parts@, before.skip(p as int), disc.disc_number),
        decreases sorted@.len() - p,
    {
        assert(before.skip(p as int).drop_first() =~= before.skip(p + 1));
        assert(before.skip(p as int)[0] == before[p as int]);
        p = p + 1;
    }
    proof {
        if p < sorted@.len() {
            assert(before.skip(p as int)[0] == before[p as int]);
        } else {
            assert(before.skip(p as int).len() == 0);
        }
        assert(first_above(game.parts@, before, disc.disc_number) == p);
    }
    let ghost old_sorted = sorted@;
    sorted.insert(p, (q, disc));
    proof {
        assert(positions(sorted@) =~= before.insert(p as int, q as int));
        assert forall|i: int| 0 <= i < sorted@.len() implies (#[trigger] sorted@[i]).0 < game.parts@.len()
            && game.parts@[sorted@[i].0 as int] == GamePart::Disc(*sorted@[i].1) by {
            if i < p {
                assert(sorted@[i] == old_sorted[i]);
            } else if i > p {
                assert(sorted@[i] == old_sorted[i - 1]);
            }
        }
    }
}

/// The positions of a list of (position, disc) pairs.
pub open spec fn positions(pairs: Seq<(usize, &DiscPart)>) -> Seq<int> {
    pairs.map_values(|e: (usize, &DiscPart)| e.0 as int)
}

/// The game's disc parts in presentation order, each with its position among the parts.
pub fn sorted_disc_entries(game: &GameContent) -> (r: Vec<(usize, &DiscPart)>)
    ensures
        positions(r@) == sorted_positions(game.parts@, game.parts@.len() as int),
        forall|i: int| 0 <= i < r@.len() ==> (#[trigger] r@[i]).0 < game.parts@.len()
            && game.parts@[r@[i].0 as int] == GamePart::Disc(*r@[i].1),
{
    let mut sorted: Vec<(usize, &DiscPart)> = Vec::new();
    let mut i: usize = 0;
    assert(positions(sorted@) =~= Seq::<int>::empty());
    while i < game.parts.len()
        invariant
            i <= game.parts@.len(),
            positions(sorted@) == sorted_positions(game.parts@, i as int),
            forall|k: int| 0 <= k < sorted@.len() ==> (#[trigger] sorted@[k]).0 < game.parts@.len()
                && game.parts@[sorted@[k].0 as int] == GamePart::Disc(*sorted@[k].1),
        decreases game.parts@.len() - i,
    {
        match &game.parts[i] {
            GamePart::Disc(disc) => {
                insert_by_number(game, &mut sorted, i, disc);
            },
            GamePart::Rom(_) => {},
        }
        i = i + 1;
    }
    sorted
}

/// The game's disc parts sorted by disc number, discs of equal number in their order.
pub fn sorted_disc_parts(game: &GameContent) -> (r: Vec<&DiscPart>)
    ensures
        r@.len() == sorted_positions(game.parts@, game.parts@.len() as int).len(),
        forall|i: int| 0 <= i < r@.len() ==> GamePart::Disc(*(#[trigger] r@[i])) == game.parts@[sorted_positions(game.parts@, game.parts@.len() as int)[i]],
{
    let entries = sorted_disc_entries(game);
    let mut out: Vec<&DiscPart> = Vec::new();
    let mut i: usize = 0;
    while i < entries.len()
        invariant
            i <= entries@.len(),
            out@.len() == i,
            forall|k: int| 0 <= k < i ==> #[trigger] out@[k] == entries@[k].1,
        decreases entries@.len() - i,
    {
        out.push(entries[i].1);
        i = i + 1;
    }
    proof {
        assert forall|k: int| 0 <= k < out@.len() implies GamePart::Disc(*(#[trigger] out@[k])) == game.parts@[sorted_positions(game.parts@, game.parts@.len() as int)[k]] by {
            assert(positions(entries@)[k] == entries@[k].0 as int);
        }
    }
    out
}

} // verus!
