//! Naming, formatting and name-conflict policies that shape presented names.
use vstd::prelude::*;

use crate::model::content::{spec_platform_name, GameContent, GamePart, Platform};
use crate::model::source::spec_file_name;
use crate::text::decimal;

pub mod default;

verus! {

/// The text of each string, in order.
pub open spec fn texts(names: Seq<String>) -> Seq<Seq<char>> {
    names.map_values(|s: String| s@)
}

/// How games, their parts, playlists and platforms are named.
///
/// The spec functions say which name each method returns. Unless an implementation
/// defines them otherwise, they are the default naming: the title for a game,
/// `Title (Disc N).cue` for a disc, the source's file name for a ROM, `Title.m3u` for a
/// playlist and the lower-case platform name.
pub trait NamingPolicy {
    open spec fn game_name_of(&self, game: GameContent) -> Seq<char> {
        game.title@
    }

    open spec fn part_name_of(&self, game: GameContent, part: GamePart) -> Seq<char> {
        match part {
            GamePart::Rom(rom) => spec_file_name(rom.source.0@),
            GamePart::Disc(disc) => game.title@ + " (Disc "@ + decimal(disc.disc_number as nat) + ").cue"@,
        }
    }

    open spec fn playlist_name_of(&self, game: GameContent) -> Seq<char> {
        game.title@ + ".m3u"@
    }

    open spec fn platform_name_of(&self, platform: Platform) -> Seq<char> {
        spec_platform_name(platform)
    }

    fn game_name(&self, game: &GameContent) -> (r: String)
        ensures
            r@ == self.game_name_of(*game),
    ;

    fn part_name(&self, game: &GameContent, part: &GamePart) -> (r: String)
        ensures
            r@ == self.part_name_of(*game, *part),
    ;

    fn playlist_name(&self, game: &GameContent) -> (r: String)
        ensures
            r@ == self.playlist_name_of(*game),
    ;

    fn platform_name(&self, platform: &Platform) -> (r: String)
        ensures
            r@ == self.platform_name_of(*platform),
    ;
}

/// How a raw name is rendered; unless an implementation defines `formatted` otherwise,
/// a name is kept as it is.
pub trait FormattingPolicy {
    open spec fn formatted(&self, raw: Seq<char>) -> Seq<char> {
        raw
    }

    fn format_name(&self, raw: &str) -> (r: String)
        ensures
            r@ == self.formatted(raw@),
    ;
}

/// Which name a proposed name becomes next to the names already taken; unless an
/// implementation defines `resolved` otherwise, the proposed name is kept.
pub trait ConflictPolicy {
    open spec fn resolved(&self, proposed: Seq<char>, existing: Seq<Seq<char>>) -> Seq<char> {
        proposed
    }

    fn resolve_name_conflict(&self, proposed: &str, existing: &[String]) -> (r: String)
        ensures
            r@ == self.resolved(proposed@, texts(existing@)),
    ;
}

/// The three policies that together decide presented names.
pub struct PolicySet<N: NamingPolicy, F: FormattingPolicy, C: ConflictPolicy> {
    pub naming: N,
    pub formatting: F,
    pub conflict: C,
}

impl<N: NamingPolicy, F: FormattingPolicy, C: ConflictPolicy> PolicySet<N, F, C> {
    pub fn new(naming: N, formatting: F, conflict: C) -> (r: Self)
        ensures
            r.naming == naming,
            r.formatting == formatting,
            r.conflict == conflict,
    {
        PolicySet { naming, formatting, conflict }
    }

    pub fn naming(&self) -> (r: &N)
        ensures
            *r == self.naming,
    {
        &self.naming
    }

    pub fn formatting(&self) -> (r: &F)
        ensures
            *r == self.formatting,
    {
        &self.formatting
    }

    pub fn conflict(&self) -> (r: &C)
        ensures
            *r == self.conflict,
    {
        &self.conflict
    }

    /// The formatting policy's rendering of `raw`.
    pub fn format_name(&self, raw: &str) -> (r: String)
        ensures
            r@ == self.formatting.formatted(raw@),
    {
        self.formatting.format_name(raw)
    }

    /// The conflict policy's choice for `proposed` next to `existing`.
    pub fn resolve_name_conflict(&self, proposed: &str, existing: &[String]) -> (r: String)
        ensures
            r@ == self.conflict.resolved(proposed@, texts(existing@)),
    {
        self.conflict.resolve_name_conflict(proposed, existing)
    }
}

} // verus!
