//! The default policies: titles as names, no reformatting, proposed names kept.
use vstd::prelude::*;

use crate::model::content::{GameContent, GamePart, Platform};
use crate::policy::{ConflictPolicy, FormattingPolicy, NamingPolicy, PolicySet};
use crate::text::{concat2, concat3, decimal_string};

verus! {

/// Names games by title, discs as `Title (Disc N).cue`, ROMs by their source file name.
pub struct DefaultNamingPolicy;

/// Keeps names as they are.
pub struct DefaultFormattingPolicy;

/// Keeps the proposed name, whatever names exist already.
pub struct DefaultConflictPolicy;

impl NamingPolicy for DefaultNamingPolicy {
    fn game_name(&self, game: &GameContent) -> (r: String) {
        game.title.clone()
    }

    fn part_name(&self, game: &GameContent, part: &GamePart) -> (r: String) {
        match part {
            GamePart::Rom(rom) => rom.source.file_name(),
            GamePart::Disc(disc) => {
                let number = decimal_string(disc.disc_number as u64);
                let mut name = concat3(game.title.as_str(), " (Disc ", number.as_str());
                name.append(").cue");
                name
            },
        }
    }

    fn playlist_name(&self, game: &GameContent) -> (r: String) {
        concat2(game.title.as_str(), ".m3u")
    }

    fn platform_name(&self, platform: &Platform) -> (r: String) {
        platform.to_string()
    }
}

impl FormattingPolicy for DefaultFormattingPolicy {
    fn format_name(&self, raw: &str) -> (r: String) {
        String::from_str(raw)
    }
}

impl ConflictPolicy for DefaultConflictPolicy {
    fn resolve_name_conflict(&self, proposed: &str, existing: &[String]) -> (r: String) {
        String::from_str(proposed)
    }
}

impl Default for PolicySet<DefaultNamingPolicy, DefaultFormattingPolicy, DefaultConflictPolicy> {
    fn default() -> (r: Self)
        ensures
            r.naming == DefaultNamingPolicy,
            r.formatting == DefaultFormattingPolicy,
            r.conflict == DefaultConflictPolicy,
    {
        PolicySet::new(DefaultNamingPolicy, DefaultFormattingPolicy, DefaultConflictPolicy)
    }
}

} // verus!
