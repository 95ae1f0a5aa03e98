use retromount::model::content::{ContentId, DiscPart, GameContent, GamePart, Platform, RomPart};
use retromount::model::source::SourceRef;
use retromount::output::presentation_expansion::{is_multi_disc_game, sorted_disc_parts};
use retromount::policy::default::{DefaultConflictPolicy, DefaultFormattingPolicy, DefaultNamingPolicy};
use retromount::policy::{ConflictPolicy, FormattingPolicy, NamingPolicy, PolicySet};

fn ff7() -> GameContent {
    GameContent {
        id: ContentId::new("ff7"),
        source: SourceRef::new("cue:/roms/ff7-disc1.cue"),
        title: "Final Fantasy VII".to_string(),
        platform: Platform::Ps1,
        parts: vec![],
        consumed_sources: vec![],
    }
}

#[test]
fn default_naming_policy_formats_disc_parts_like_current_behavior() {
    let game = ff7();

    let part = GamePart::Disc(DiscPart {
        source: SourceRef::new("cue:/roms/ff7-disc2.cue"),
        disc_number: 2,
        consumed_sources: vec![SourceRef::new("cue:/roms/ff7-disc2.bin")],
        cd_disc: None,
        logical_disc: None,
    });

    let policy = DefaultNamingPolicy;
    assert_eq!(policy.part_name(&game, &part), "Final Fantasy VII (Disc 2).cue");
}

#[test]
fn default_naming_policy_uses_source_file_name_for_rom_parts() {
    let game = GameContent {
        id: ContentId::new("sonic"),
        source: SourceRef::new("zip:/roms/megadrive.zip#Sonic the Hedgehog.bin"),
        title: "Sonic the Hedgehog".to_string(),
        platform: Platform::Megadrive,
        parts: vec![],
        consumed_sources: vec![],
    };

    let part = GamePart::Rom(RomPart {
        source: SourceRef::new("zip:/roms/megadrive.zip#Sonic the Hedgehog.bin"),
        size: 1024,
    });

    let policy = DefaultNamingPolicy;
    assert_eq!(policy.part_name(&game, &part), "Sonic the Hedgehog.bin");
}

#[test]
fn default_naming_policy_formats_playlist_like_current_behavior() {
    let game = ff7();

    let policy = DefaultNamingPolicy;
    assert_eq!(policy.playlist_name(&game), "Final Fantasy VII.m3u");
}

#[test]
fn default_formatting_policy_is_passthrough() {
    let policy = DefaultFormattingPolicy;
    assert_eq!(
        policy.format_name("Metal Gear Solid (Disc 1).cue"),
        "Metal Gear Solid (Disc 1).cue"
    );
}

#[test]
fn default_conflict_policy_preserves_proposed_name() {
    let policy = DefaultConflictPolicy;
    assert_eq!(
        policy.resolve_name_conflict("game.cue", &["other.cue".to_string()]),
        "game.cue"
    );
}

#[test]
fn default_naming_policy_names_games_and_platforms() {
    let policy = DefaultNamingPolicy;
    assert_eq!(policy.game_name(&ff7()), "Final Fantasy VII");
    assert_eq!(policy.platform_name(&Platform::Ps1), "ps1");
    assert_eq!(policy.platform_name(&Platform::Megadrive), "megadrive");
}

#[test]
fn default_policy_set_formats_and_resolves_through_its_policies() {
    let policies: PolicySet<DefaultNamingPolicy, DefaultFormattingPolicy, DefaultConflictPolicy> =
        PolicySet::default();
    assert_eq!(policies.format_name("Game.iso"), "Game.iso");
    assert_eq!(
        policies.resolve_name_conflict("Game.iso", &["Game.iso".to_string()]),
        "Game.iso"
    );
}

fn disc_part(number: u32) -> GamePart {
    GamePart::Disc(DiscPart {
        source: SourceRef::new(format!("file:/roms/disc{number}.cue")),
        disc_number: number,
        consumed_sources: vec![SourceRef::new(format!("file:/roms/disc{number}.bin"))],
        cd_disc: None,
        logical_disc: None,
    })
}

fn rom_part() -> GamePart {
    GamePart::Rom(RomPart {
        source: SourceRef::new("file:/roms/game.bin"),
        size: 2048,
    })
}

#[test]
fn identifies_multi_disc_games() {
    let game = GameContent {
        id: ContentId::new("ff7"),
        source: SourceRef::new("file:/roms/ff7-disc1.cue"),
        title: "Final Fantasy VII".to_string(),
        platform: Platform::Ps1,
        parts: vec![disc_part(2), disc_part(1)],
        consumed_sources: vec![],
    };

    assert!(is_multi_disc_game(&game));
}

#[test]
fn rejects_mixed_part_games_as_multi_disc() {
    let game = GameContent {
        id: ContentId::new("mixed"),
        source: SourceRef::new("file:/roms/mixed.bin"),
        title: "Example".to_string(),
        platform: Platform::Unknown,
        parts: vec![disc_part(1), rom_part()],
        consumed_sources: vec![],
    };

    assert!(!is_multi_disc_game(&game));
}

#[test]
fn single_disc_game_is_not_multi_disc() {
    let game = GameContent {
        parts: vec![disc_part(1)],
        ..ff7()
    };
    assert!(!is_multi_disc_game(&game));
}

#[test]
fn sorts_disc_parts_by_disc_number() {
    let game = GameContent {
        id: ContentId::new("example"),
        source: SourceRef::new("file:/roms/example-disc1.cue"),
        title: "Example".to_string(),
        platform: Platform::Ps1,
        parts: vec![disc_part(3), disc_part(1), disc_part(2)],
        consumed_sources: vec![],
    };

    let sorted = sorted_disc_parts(&game);
    let disc_numbers: Vec<u32> = sorted.iter().map(|disc| disc.disc_number).collect();

    assert_eq!(disc_numbers, vec![1, 2, 3]);
}

#[test]
fn sorting_disc_parts_skips_rom_parts() {
    let game = GameContent {
        parts: vec![disc_part(2), rom_part(), disc_part(1)],
        ..ff7()
    };
    let disc_numbers: Vec<u32> = sorted_disc_parts(&game)
        .iter()
        .map(|disc| disc.disc_number)
        .collect();
    assert_eq!(disc_numbers, vec![1, 2]);
}
