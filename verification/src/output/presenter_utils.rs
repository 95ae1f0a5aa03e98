//! Helpers shared by presenters.
use vstd::prelude::*;

use crate::model::content::{DiscPart, GameContent, GamePart};
use crate::output::presentation_expansion::{sorted_positions, spec_is_multi_disc};
use crate::policy::{texts, ConflictPolicy, FormattingPolicy, NamingPolicy, PolicySet};

verus! {

/// Whether a game consists entirely of several disc parts.
pub fn is_multi_disc_game(game: &GameContent) -> (r: bool)
    ensures
        r == spec_is_multi_disc(*game),
{
    crate::output::presentation_expansion::is_multi_disc_game(game)
}

/// The game's disc parts sorted by disc number.
pub fn sorted_disc_parts(game: &GameContent) -> (r: Vec<&DiscPart>)
    ensures
        r@.len() == sorted_positions(game.parts@, game.parts@.len() as int).len(),
        forall|i: int| 0 <= i < r@.len() ==> GamePart::Disc(*(#[trigger] r@[i])) == game.parts@[sorted_positions(game.parts@, game.parts@.len() as int)[i]],
{
    crate::output::presentation_expansion::sorted_disc_parts(game)
}

/// The conflict policy's name for `proposed` next to `existing`.
pub fn resolve_name<N: NamingPolicy, F: FormattingPolicy, C: ConflictPolicy>(
    proposed: &str,
    existing: &[String],
    policy: &PolicySet<N, F, C>,
) -> (r: String)
    ensures
        r@ == policy.conflict.resolved(proposed@, texts(existing@)),
{
    policy.conflict.resolve_name_conflict(proposed, existing)
}

} // verus!
