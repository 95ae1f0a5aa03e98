//! Compiles a declarative presentation spec and normalized content into a plan.
use vstd::prelude::*;

use crate::model::cd::CdDisc;
use crate::model::content::{spec_content_id, DiscPart, GameContent, GamePart, LogicalDisc, NormalizedContent, RomPart};
use crate::model::source::{spec_file_name, SourceRef};
use crate::output::capabilities::{CapabilityFeature, CapabilityRequirements, ContentType, Format};
use crate::output::plan::{
    spec_entry_name, ArtifactId, ArtifactReference, ArtifactRequest, ContentArtifact, GeneratedArtifact, PlanArtifactSet,
    PlanDirectory, PlanEntry, PlanFile, PlannedArtifactKind, PlaylistArtifact, PresentationPlan, SourceArtifact,
    SourceArtifactInput,
};
use crate::output::presentation_expansion::{
    is_multi_disc_game, number_at, sorted_disc_entries, sorted_positions, spec_is_multi_disc,
};
use crate::output::presentation_spec::{ArtifactSpec, FileRuleSpec, LayoutSpec, NamingSpec, PresentationSpec, SelectSpec, SourceFormat};
use crate::output::grouped_presenter::ensure_distinct_child;
use crate::policy::{texts, ConflictPolicy, FormattingPolicy, NamingPolicy, PolicySet};
use crate::text::{after_last, before_last, chars_of, concat2, contains_char, concat3, decimal, decimal_string, ends_with, find_last, last_index_of, push_char, str_ends_with, str_eq, string_from_range};

verus! {

/// A name that is its own file name on every platform: no `/`, no `\\`, no `:`, and not `..`.
pub open spec fn plain_file_name(name: Seq<char>) -> bool {
    !name.contains('/') && !name.contains('\\') && !name.contains(':') && name != ".."@
}

/// Whether a `.` follows the first character.
pub open spec fn has_inner_dot(name: Seq<char>) -> bool {
    exists|i: int| 0 < i < name.len() && name[i] == '.'
}

/// `std::path::Path::extension` on `name`, asked only whether it is present. Its
/// documentation: there is an extension when the file name holds a `.` after its first
/// character. A plain name is its own file name on every platform; for other names the
/// answer depends on the platform's path syntax, and nothing is stated.
#[verifier::external_body]
fn path_has_extension(name: &str) -> (r: bool)
    ensures
        plain_file_name(name@) ==> r == has_inner_dot(name@),
{
    std::path::Path::new(name).extension().is_some()
}

/// The file name of a `/`-separated path, as `Path::file_name` finds it: the last segment
/// that is neither empty nor `.`; none when there is no such segment or it is `..`.
pub open spec fn spec_file_component(name: Seq<char>) -> Option<Seq<char>>
    decreases name.len(),
{
    let seg = after_last(name, '/');
    if seg.len() == 0 || seg == "."@ {
        if last_index_of(name, '/') == -1 {
            None
        } else {
            proof {
                crate::text::lemma_last_index_of(name, '/');
            }
            spec_file_component(before_last(name, '/'))
        }
    } else if seg == ".."@ {
        None
    } else {
        Some(seg)
    }
}

/// Whether `Path::extension` finds an extension in `name` read as a `/`-separated path:
/// its file name holds a `.` after its first character.
pub open spec fn spec_has_extension(name: Seq<char>) -> bool {
    match spec_file_component(name) {
        Some(file) => has_inner_dot(file),
        None => false,
    }
}

/// Whether a `.` follows the first character of `chars[lo..hi]`.
fn inner_dot(chars: &[char], lo: usize, hi: usize) -> (r: bool)
    requires
        lo <= hi <= chars@.len(),
    ensures
        r == has_inner_dot(chars@.subrange(lo as int, hi as int)),
{
    let ghost seg = chars@.subrange(lo as int, hi as int);
    if hi - lo < 2 {
        return false;
    }
    let mut i: usize = lo + 1;
    while i < hi
        invariant
            lo < i,
            hi <= chars@.len(),
            seg == chars@.subrange(lo as int, hi as int),
            forall|j: int| 0 < j < i - lo && j < seg.len() ==> seg[j] != '.',
        decreases hi - i,
    {
        if chars[i] == '.' {
            assert(seg[i - lo] == '.');
            return true;
        }
        i = i + 1;
    }
    false
}

/// Whether the file name of `chars[..end]`, read as a `/`-separated path, has an
/// extension. A file name that is plain on every platform is given to `Path::extension`;
/// one holding `\\` or `:` (a separator or a prefix on some platforms) is judged by the
/// same rule here, so that a plan is the same on every platform.
fn file_component_has_extension(chars: &[char], end: usize) -> (r: bool)
    requires
        end <= chars@.len(),
    ensures
        r == spec_has_extension(chars@.take(end as int)),
    decreases end,
{
    let ghost s = chars@.take(end as int);
    let mut i: usize = end;
    while i > 0 && chars[i - 1] != '/'
        invariant
            i <= end <= chars@.len(),
            s == chars@.take(end as int),
            forall|j: int| i <= j < end ==> chars@[j] != '/',
        decreases i,
    {
        i = i - 1;
    }
    proof {
        crate::text::lemma_last_index_of(s, '/');
        reveal_strlit(".");
        reveal_strlit("..");
        if i == 0 {
            assert forall|j: int| 0 <= j < s.len() implies s[j] != '/' by {
                assert(s[j] == chars@[j]);
            }
            lemma_no_slash(s);
        } else {
            lemma_last_slash(s, i - 1);
            assert(before_last(s, '/') =~= chars@.take(i - 1));
        }
        assert(after_last(s, '/') =~= chars@.subrange(i as int, end as int));
    }
    let len = end - i;
    let is_dot = len == 1 && chars[i] == '.';
    let is_dot_dot = len == 2 && chars[i] == '.' && chars[i + 1] == '.';
    proof {
        let seg = chars@.subrange(i as int, end as int);
        assert("."@ =~= seq!['.']);
        assert(".."@ =~= seq!['.', '.']);
        if len == 1 && chars@[i as int] == '.' {
            assert(seg =~= seq!['.']);
        }
        if seg == seq!['.'] {
            assert(seg[0] == chars@[i as int]);
        }
        if len == 2 && chars@[i as int] == '.' && chars@[i + 1] == '.' {
            assert(seg =~= seq!['.', '.']);
        }
        if seg == seq!['.', '.'] {
            assert(seg[0] == chars@[i as int]);
            assert(seg[1] == chars@[i + 1]);
        }
        assert(is_dot == (seg == "."@));
        assert(is_dot_dot == (seg == ".."@));
    }
    if len == 0 || is_dot {
        if i == 0 {
            return false;
        }
        return file_component_has_extension(chars, i - 1);
    }
    if is_dot_dot {
        return false;
    }
    let file = string_from_range(chars, i, end);
    if !contains_char(file.as_str(), '\\') && !contains_char(file.as_str(), ':') {
        proof {
            assert(!file@.contains('/')) by {
                if file@.contains('/') {
                    let k = choose|k: int| 0 <= k < file@.len() && file@[k] == '/';
                    assert(chars@[i + k] == '/');
                }
            }
        }
        path_has_extension(file.as_str())
    } else {
        inner_dot(chars, i, end)
    }
}

/// Whether `name` has an extension, as `Path::extension` finds it in `/`-separated paths.
fn name_has_extension(name: &str) -> (r: bool)
    ensures
        r == spec_has_extension(name@),
{
    let chars = chars_of(name);
    let r = file_component_has_extension(chars.as_slice(), chars.len());
    assert(chars@.take(chars@.len() as int) =~= name@);
    r
}

/// The file extension that a format's files carry.
pub open spec fn spec_extension(format: Option<Format>) -> Option<Seq<char>> {
    match format {
        Some(Format::Iso) => Some("iso"@),
        Some(Format::Chd) => Some("chd"@),
        Some(Format::Zip) => Some("zip"@),
        Some(Format::M3u) => Some("m3u"@),
        Some(Format::Directory) => None,
        Some(Format::Bin) => Some("bin"@),
        Some(Format::CueBin) => Some("cue"@),
        Some(Format::Text) => Some("txt"@),
        None => None,
    }
}

/// A name with the format's extension removed from its end, when it ends with it.
pub open spec fn spec_strip_extension(name: Seq<char>, format: Option<Format>) -> Seq<char> {
    match spec_extension(format) {
        Some(ext) => if ends_with(name, seq!['.'] + ext) {
            name.subrange(0, name.len() - ext.len() - 1)
        } else {
            name
        },
        None => name,
    }
}

/// A name given the format's extension, unless it has an extension already.
pub open spec fn spec_apply_extension(name: Seq<char>, format: Option<Format>) -> Seq<char> {
    if spec_has_extension(name) {
        name
    } else {
        match spec_extension(format) {
            Some(ext) => name + seq!['.'] + ext,
            None => name,
        }
    }
}

fn extension_for_format(format: Option<Format>) -> (r: Option<&'static str>)
    ensures
        match spec_extension(format) {
            Some(e) => r matches Some(s) && s@ == e,
            None => r is None,
        },
{
    match format {
        Some(Format::Iso) => Some("iso"),
        Some(Format::Chd) => Some("chd"),
        Some(Format::Zip) => Some("zip"),
        Some(Format::M3u) => Some("m3u"),
        Some(Format::Directory) => None,
        Some(Format::Bin) => Some("bin"),
        Some(Format::CueBin) => Some("cue"),
        Some(Format::Text) => Some("txt"),
        None => None,
    }
}

fn strip_known_extension(file_name: &str, format: Option<Format>) -> (r: String)
    ensures
        r@ == spec_strip_extension(file_name@, format),
{
    match extension_for_format(format) {
        Some(ext) => {
            let suffix = concat2(".", ext);
            proof {
                reveal_strlit(".");
                assert(suffix@ =~= seq!['.'] + ext@);
            }
            if str_ends_with(file_name, suffix.as_str()) {
                let chars = chars_of(file_name);
                let suffix_chars = chars_of(suffix.as_str());
                string_from_range(&chars, 0, chars.len() - suffix_chars.len())
            } else {
                String::from_str(file_name)
            }
        },
        None => String::from_str(file_name),
    }
}

fn apply_extension(name: String, format: Option<Format>) -> (r: String)
    ensures
        r@ == spec_apply_extension(name@, format),
{
    if name_has_extension(name.as_str()) {
        return name;
    }
    match extension_for_format(format) {
        Some(ext) => {
            proof {
                reveal_strlit(".");
            }
            concat3(name.as_str(), ".", ext)
        },
        None => name,
    }
}

/// The source format a source reference's extension names, if any.
pub open spec fn spec_source_format(source: Seq<char>) -> Option<SourceFormat> {
    if ends_with(source, ".chd"@) {
        Some(SourceFormat::Chd)
    } else if ends_with(source, ".iso"@) {
        Some(SourceFormat::Iso)
    } else if ends_with(source, ".cue"@) {
        Some(SourceFormat::Cue)
    } else if ends_with(source, ".bin"@) {
        Some(SourceFormat::Bin)
    } else if ends_with(source, ".zip"@) {
        Some(SourceFormat::Zip)
    } else {
        None
    }
}

fn source_format(source: &str) -> (r: Option<SourceFormat>)
    ensures
        r == spec_source_format(source@),
{
    if str_ends_with(source, ".chd") {
        Some(SourceFormat::Chd)
    } else if str_ends_with(source, ".iso") {
        Some(SourceFormat::Iso)
    } else if str_ends_with(source, ".cue") {
        Some(SourceFormat::Cue)
    } else if str_ends_with(source, ".bin") {
        Some(SourceFormat::Bin)
    } else if str_ends_with(source, ".zip") {
        Some(SourceFormat::Zip)
    } else {
        None
    }
}

/// The source of a game part.
pub open spec fn part_source(part: GamePart) -> Seq<char> {
    match part {
        GamePart::Rom(r) => r.source.0@,
        GamePart::Disc(d) => d.source.0@,
    }
}

/// Whether a part of the given source format meets the rule's source-format constraints.
pub open spec fn format_admitted(rule: FileRuleSpec, format: Option<SourceFormat>) -> bool {
    &&& rule.source_formats@.len() > 0 ==> (format matches Some(f) && rule.source_formats@.contains(f))
    &&& (format matches Some(f) ==> !rule.excluded_source_formats@.contains(f))
}

/// Whether the rule's source-format constraints admit the item: every part of a game must
/// meet them; other content is not constrained.
pub open spec fn sources_admitted(rule: FileRuleSpec, item: NormalizedContent) -> bool {
    item matches NormalizedContent::Game(g) ==> forall|i: int| 0 <= i < g.parts@.len()
        ==> format_admitted(rule, spec_source_format(#[trigger] part_source(g.parts@[i])))
}

fn formats_contain(formats: &Vec<SourceFormat>, format: SourceFormat) -> (r: bool)
    ensures
        r == formats@.contains(format),
{
    let mut i: usize = 0;
    while i < formats.len()
        invariant
            i <= formats@.len(),
            forall|j: int| 0 <= j < i ==> formats@[j] != format,
        decreases formats@.len() - i,
    {
        if formats[i] == format {
            return true;
        }
        i = i + 1;
    }
    false
}

fn admits_format(rule: &FileRuleSpec, format: Option<SourceFormat>) -> (r: bool)
    ensures
        r == format_admitted(*rule, format),
{
    if rule.source_formats.len() > 0 {
        match format {
            Some(f) => {
                if !formats_contain(&rule.source_formats, f) {
                    return false;
                }
            },
            None => {
                return false;
            },
        }
    }
    match format {
        Some(f) => !formats_contain(&rule.excluded_source_formats, f),
        None => true,
    }
}

fn admits_sources(rule: &FileRuleSpec, item: &NormalizedContent) -> (r: bool)
    ensures
        r == sources_admitted(*rule, *item),
{
    let game = match item {
        NormalizedContent::Game(g) => g,
        _ => {
            return true;
        },
    };
    let mut i: usize = 0;
    while i < game.parts.len()
        invariant
            i <= game.parts@.len(),
            item is Game && item->Game_0 == *game,
            forall|j: int| 0 <= j < i ==> format_admitted(*rule, spec_source_format(#[trigger] part_source(game.parts@[j]))),
        decreases game.parts@.len() - i,
    {
        let source = match &game.parts[i] {
            GamePart::Rom(r) => r.source.0.as_str(),
            GamePart::Disc(d) => d.source.0.as_str(),
        };
        let admitted = admits_format(rule, source_format(source));
        proof {
            assert(source@ == part_source(game.parts@[i as int]));
        }
        if !admitted {
            proof {
                let g = item->Game_0;
                assert(g.parts@[i as int] == game.parts@[i as int]);
                assert(!format_admitted(*rule, spec_source_format(part_source(g.parts@[i as int]))));
            }
            return false;
        }
        i = i + 1;
    }
    true
}

/// What a selection rule picks out of an item.
pub enum Selection {
    /// The item's own source, with a size.
    Whole { source: SourceRef, size: u64 },
    /// The game's single disc part.
    Disc(DiscPart),
    /// The game's single ROM part.
    Rom(RomPart),
}

/// The part a single-part game consists of, when it is a disc.
pub open spec fn single_disc(game: GameContent) -> Option<DiscPart> {
    if game.parts@.len() == 1 && game.parts@[0] is Disc {
        Some(game.parts@[0]->Disc_0)
    } else {
        None
    }
}

/// What `select` picks out of `item`, if anything; multi-disc selections are compiled apart.
pub open spec fn spec_select(select: SelectSpec, item: NormalizedContent) -> Option<Selection> {
    match (select, item) {
        (SelectSpec::Games, NormalizedContent::Game(g)) => Some(Selection::Whole { source: g.source, size: 0 }),
        (SelectSpec::GamesWithoutParts, NormalizedContent::Game(g)) => if g.parts@.len() == 0 {
            Some(Selection::Whole { source: g.source, size: 0 })
        } else {
            None
        },
        (SelectSpec::SingleDiscGames, NormalizedContent::Game(g)) => match single_disc(g) {
            Some(d) => Some(Selection::Disc(d)),
            None => None,
        },
        (SelectSpec::SingleDiscGamesByPlatform { platform }, NormalizedContent::Game(g)) => match single_disc(g) {
            Some(d) => if g.platform == platform { Some(Selection::Disc(d)) } else { None },
            None => None,
        },
        (SelectSpec::SingleDiscGamesByPlatformAndMedia { platform, media }, NormalizedContent::Game(g)) => match single_disc(g) {
            Some(d) => if g.platform == platform && (d.logical_disc matches Some(l) && l.media == media) {
                Some(Selection::Disc(d))
            } else {
                None
            },
            None => None,
        },
        (SelectSpec::SingleRomGames, NormalizedContent::Game(g)) => if g.parts@.len() == 1 && g.parts@[0] is Rom {
            Some(Selection::Rom(g.parts@[0]->Rom_0))
        } else {
            None
        },
        (SelectSpec::Bytes, NormalizedContent::Bytes(b)) => Some(Selection::Whole { source: b.source, size: b.size }),
        (SelectSpec::Text, NormalizedContent::Text(t)) => Some(Selection::Whole { source: t.source, size: t.size }),
        _ => None,
    }
}

/// The source, size, logical disc and CD layout a rule's artifact is built from.
struct SourceMatch {
    source: SourceRef,
    size: u64,
    logical_disc: Option<LogicalDisc>,
    cd_disc: Option<CdDisc>,
}

/// Whether a match carries what the selection designates.
spec fn match_of(m: SourceMatch, s: Selection) -> bool {
    match s {
        Selection::Whole { source, size } => m.source == source && m.size == size && m.logical_disc is None && m.cd_disc is None,
        Selection::Disc(d) => m.source == d.source && m.size == 0 && m.logical_disc == d.logical_disc && match (m.cd_disc, d.cd_disc) {
            (Some(a), Some(b)) => a.same(b),
            (None, None) => true,
            _ => false,
        },
        Selection::Rom(r) => m.source == r.source && m.size == r.size && m.logical_disc is None && m.cd_disc is None,
    }
}

fn disc_match(disc: &DiscPart) -> (r: SourceMatch)
    ensures
        match_of(r, Selection::Disc(*disc)),
{
    SourceMatch {
        source: disc.source.clone(),
        size: 0,
        logical_disc: match &disc.logical_disc {
            Some(l) => Some(l.clone()),
            None => None,
        },
        cd_disc: match &disc.cd_disc {
            Some(c) => Some(c.clone()),
            None => None,
        },
    }
}

fn whole_match(source: &SourceRef, size: u64) -> (r: SourceMatch)
    ensures
        match_of(r, Selection::Whole { source: *source, size }),
{
    SourceMatch { source: source.clone(), size, logical_disc: None, cd_disc: None }
}

fn single_part<'a>(game: &'a GameContent) -> (r: Option<&'a GamePart>)
    ensures
        game.parts@.len() == 1 ==> r == Some(&game.parts@[0]),
        game.parts@.len() != 1 ==> r is None,
{
    if game.parts.len() == 1 {
        Some(&game.parts[0])
    } else {
        None
    }
}

/// Applies a (non-multi-disc) selection to an item.
fn select_content(select: SelectSpec, item: &NormalizedContent) -> (r: Option<SourceMatch>)
    ensures
        match spec_select(select, *item) {
            Some(s) => r matches Some(m) && match_of(m, s),
            None => r is None,
        },
{
    match (select, item) {
        (SelectSpec::Games, NormalizedContent::Game(g)) => Some(whole_match(&g.source, 0)),
        (SelectSpec::GamesWithoutParts, NormalizedContent::Game(g)) => {
            if g.parts.len() == 0 {
                Some(whole_match(&g.source, 0))
            } else {
                None
            }
        },
        (SelectSpec::SingleDiscGames, NormalizedContent::Game(g)) => match single_part(g) {
            Some(GamePart::Disc(d)) => Some(disc_match(d)),
            _ => None,
        },
        (SelectSpec::SingleDiscGamesByPlatform { platform }, NormalizedContent::Game(g)) => match single_part(g) {
            Some(GamePart::Disc(d)) => {
                if g.platform == platform {
                    Some(disc_match(d))
                } else {
                    None
                }
            },
            _ => None,
        },
        (SelectSpec::SingleDiscGamesByPlatformAndMedia { platform, media }, NormalizedContent::Game(g)) => match single_part(g) {
            Some(GamePart::Disc(d)) => {
                let media_matches = match &d.logical_disc {
                    Some(l) => l.media == media,
                    None => false,
                };
                if g.platform == platform && media_matches {
                    Some(disc_match(d))
                } else {
                    None
                }
            },
            _ => None,
        },
        (SelectSpec::SingleRomGames, NormalizedContent::Game(g)) => match single_part(g) {
            Some(GamePart::Rom(rom)) => Some(whole_match(&rom.source, rom.size)),
            _ => None,
        },
        (SelectSpec::Bytes, NormalizedContent::Bytes(b)) => Some(whole_match(&b.source, b.size)),
        (SelectSpec::Text, NormalizedContent::Text(t)) => Some(whole_match(&t.source, t.size)),
        _ => None,
    }
}

/// The source file name a single-part game's part comes from.
pub open spec fn spec_part_source_name(game: GameContent) -> Option<Seq<char>> {
    if game.parts@.len() != 1 {
        None
    } else {
        match game.parts@[0] {
            GamePart::Rom(rom) => Some(spec_file_name(rom.source.0@)),
            GamePart::Disc(disc) => Some(spec_file_name(disc.source.0@)),
        }
    }
}

/// The name a naming rule proposes for an item, if it names that kind of item.
pub open spec fn spec_build_name<N: NamingPolicy>(naming: NamingSpec, item: NormalizedContent, format: Option<Format>, policy: N) -> Option<Seq<char>> {
    match naming {
        NamingSpec::GameTitle => match item {
            NormalizedContent::Game(g) => Some(g.title@),
            _ => None,
        },
        NamingSpec::GameName => match item {
            NormalizedContent::Game(g) => Some(policy.game_name_of(g)),
            _ => None,
        },
        NamingSpec::PartName => match item {
            NormalizedContent::Game(g) => if g.parts@.len() == 1 { Some(policy.part_name_of(g, g.parts@[0])) } else { None },
            _ => None,
        },
        NamingSpec::PlaylistName => match item {
            NormalizedContent::Game(g) => Some(policy.playlist_name_of(g)),
            _ => None,
        },
        NamingSpec::SourceName => match item {
            NormalizedContent::Bytes(b) => Some(spec_strip_extension(spec_file_name(b.source.0@), format)),
            NormalizedContent::Text(t) => Some(spec_strip_extension(spec_file_name(t.source.0@), format)),
            NormalizedContent::Game(g) => match spec_part_source_name(g) {
                Some(n) => Some(spec_strip_extension(n, format)),
                None => None,
            },
        },
        NamingSpec::Literal(value) => Some(value@),
    }
}

fn build_name<N: NamingPolicy>(naming: &NamingSpec, item: &NormalizedContent, format: Option<Format>, policy: &N) -> (r: Option<String>)
    ensures
        match spec_build_name(*naming, *item, format, *policy) {
            Some(n) => r matches Some(s) && s@ == n,
            None => r is None,
        },
{
    match (naming, item) {
        (NamingSpec::GameTitle, NormalizedContent::Game(g)) => Some(g.title.clone()),
        (NamingSpec::GameName, NormalizedContent::Game(g)) => Some(policy.game_name(g)),
        (NamingSpec::PartName, NormalizedContent::Game(g)) => match single_part(g) {
            Some(part) => Some(policy.part_name(g, part)),
            None => None,
        },
        (NamingSpec::PlaylistName, NormalizedContent::Game(g)) => Some(policy.playlist_name(g)),
        (NamingSpec::SourceName, NormalizedContent::Bytes(b)) => Some(strip_known_extension(b.source.file_name().as_str(), format)),
        (NamingSpec::SourceName, NormalizedContent::Text(t)) => Some(strip_known_extension(t.source.file_name().as_str(), format)),
        (NamingSpec::SourceName, NormalizedContent::Game(g)) => match single_part(g) {
            Some(GamePart::Rom(rom)) => Some(strip_known_extension(rom.source.file_name().as_str(), format)),
            Some(GamePart::Disc(disc)) => Some(strip_known_extension(disc.source.file_name().as_str(), format)),
            None => None,
        },
        (NamingSpec::Literal(value), _) => Some(value.clone()),
        _ => None,
    }
}

/// The artifact id a rule gives an item.
pub open spec fn spec_artifact_id(select: SelectSpec, item: NormalizedContent) -> Seq<char> {
    match (select, item) {
        (SelectSpec::Games, NormalizedContent::Game(g)) => "game:"@ + g.id.0@,
        (SelectSpec::GamesWithoutParts, NormalizedContent::Game(g)) => "game:"@ + g.id.0@,
        (SelectSpec::SingleDiscGames, NormalizedContent::Game(g)) => "game:"@ + g.id.0@,
        (SelectSpec::SingleDiscGamesByPlatformAndMedia { .. }, NormalizedContent::Game(g)) => "game:"@ + g.id.0@,
        (SelectSpec::MultiDiscGames, NormalizedContent::Game(g)) => "game:"@ + g.id.0@,
        (SelectSpec::SingleRomGames, NormalizedContent::Game(g)) => "game:"@ + g.id.0@,
        (SelectSpec::Bytes, NormalizedContent::Bytes(b)) => "bytes:"@ + b.id.0@,
        (SelectSpec::Text, NormalizedContent::Text(t)) => "text:"@ + t.id.0@,
        _ => "content:"@ + spec_content_id(item).0@,
    }
}

fn build_artifact_id(select: SelectSpec, item: &NormalizedContent) -> (r: ArtifactId)
    ensures
        r.0@ == spec_artifact_id(select, *item),
{
    match (select, item) {
        (SelectSpec::Games, NormalizedContent::Game(g)) => ArtifactId::new(concat2("game:", g.id.0.as_str())),
        (SelectSpec::GamesWithoutParts, NormalizedContent::Game(g)) => ArtifactId::new(concat2("game:", g.id.0.as_str())),
        (SelectSpec::SingleDiscGames, NormalizedContent::Game(g)) => ArtifactId::new(concat2("game:", g.id.0.as_str())),
        (SelectSpec::SingleDiscGamesByPlatformAndMedia { .. }, NormalizedContent::Game(g)) => ArtifactId::new(
            concat2("game:", g.id.0.as_str()),
        ),
        (SelectSpec::MultiDiscGames, NormalizedContent::Game(g)) => ArtifactId::new(concat2("game:", g.id.0.as_str())),
        (SelectSpec::SingleRomGames, NormalizedContent::Game(g)) => ArtifactId::new(concat2("game:", g.id.0.as_str())),
        (SelectSpec::Bytes, NormalizedContent::Bytes(b)) => ArtifactId::new(concat2("bytes:", b.id.0.as_str())),
        (SelectSpec::Text, NormalizedContent::Text(t)) => ArtifactId::new(concat2("text:", t.id.0.as_str())),
        _ => ArtifactId::new(concat2("content:", item.id().0.as_str())),
    }
}

/// Whether requirements are the ones an artifact spec states.
pub open spec fn requirements_of(r: CapabilityRequirements, spec: ArtifactSpec) -> bool {
    &&& r.content_type == spec.content_type
    &&& r.format == spec.format
    &&& r.required_features@.to_set() == spec.required_features@.to_set()
    &&& r.preferred_features@.to_set() == spec.preferred_features@.to_set()
    &&& r.forbidden_features@.to_set() == spec.forbidden_features@.to_set()
}

fn build_requirements(spec: &ArtifactSpec) -> (r: CapabilityRequirements)
    ensures
        requirements_of(r, *spec),
{
    let mut requirements = CapabilityRequirements::new(spec.content_type);
    match spec.format {
        Some(format) => {
            requirements = requirements.with_format(format);
        },
        None => {},
    }
    let required = spec.required_features.as_slice();
    let mut i: usize = 0;
    assert(requirements.required_features@.to_set() =~= required@.take(0).to_set());
    while i < required.len()
        invariant
            i <= required@.len(),
            required@ == spec.required_features@,
            requirements.content_type == spec.content_type,
            requirements.format == spec.format,
            requirements.required_features@.to_set() == required@.take(i as int).to_set(),
            requirements.preferred_features@.len() == 0,
            requirements.forbidden_features@.len() == 0,
        decreases required@.len() - i,
    {
        requirements = requirements.require_feature(required[i]);
        proof {
            assert(required@.take(i + 1) =~= required@.take(i as int).push(required@[i as int]));
            required@.take(i as int).lemma_push_to_set_commute(required@[i as int]);
        }
        i = i + 1;
    }
    assert(required@.take(required@.len() as int) =~= required@);
    let preferred = spec.preferred_features.as_slice();
    let mut i: usize = 0;
    assert(requirements.preferred_features@.to_set() =~= preferred@.take(0).to_set());
    while i < preferred.len()
        invariant
            i <= preferred@.len(),
            preferred@ == spec.preferred_features@,
            requirements.content_type == spec.content_type,
            requirements.format == spec.format,
            requirements.required_features@.to_set() == spec.required_features@.to_set(),
            requirements.preferred_features@.to_set() == preferred@.take(i as int).to_set(),
            requirements.forbidden_features@.len() == 0,
        decreases preferred@.len() - i,
    {
        requirements = requirements.prefer_feature(preferred[i]);
        proof {
            assert(preferred@.take(i + 1) =~= preferred@.take(i as int).push(preferred@[i as int]));
            preferred@.take(i as int).lemma_push_to_set_commute(preferred@[i as int]);
        }
        i = i + 1;
    }
    assert(preferred@.take(preferred@.len() as int) =~= preferred@);
    let forbidden = spec.forbidden_features.as_slice();
    let mut i: usize = 0;
    assert(requirements.forbidden_features@.to_set() =~= forbidden@.take(0).to_set());
    while i < forbidden.len()
        invariant
            i <= forbidden@.len(),
            forbidden@ == spec.forbidden_features@,
            requirements.content_type == spec.content_type,
            requirements.format == spec.format,
            requirements.required_features@.to_set() == spec.required_features@.to_set(),
            requirements.preferred_features@.to_set() == spec.preferred_features@.to_set(),
            requirements.forbidden_features@.to_set() == forbidden@.take(i as int).to_set(),
        decreases forbidden@.len() - i,
    {
        requirements = requirements.forbid_feature(forbidden[i]);
        proof {
            assert(forbidden@.take(i + 1) =~= forbidden@.take(i as int).push(forbidden@[i as int]));
            forbidden@.take(i as int).lemma_push_to_set_commute(forbidden@[i as int]);
        }
        i = i + 1;
    }
    assert(forbidden@.take(forbidden@.len() as int) =~= forbidden@);
    requirements
}

/// Whether a selection is one of the multi-disc selections.
pub open spec fn is_multi_select(select: SelectSpec) -> bool {
    select is MultiDiscGames || select is MultiDiscGamesByPlatform
}

/// Whether an artifact kind is what a selection's artifact is built as: a logical disc
/// as content, anything else as its single source.
pub open spec fn kind_of(kind: PlannedArtifactKind, s: Selection) -> bool {
    match s {
        Selection::Disc(d) => match d.logical_disc {
            Some(l) => kind == PlannedArtifactKind::ContentBacked(ContentArtifact::LogicalDisc(l)),
            None => kind matches PlannedArtifactKind::SourceBacked(a) && a.inputs@ == seq![SourceArtifactInput { source: d.source, size: 0 }],
        },
        Selection::Whole { source, size } => kind matches PlannedArtifactKind::SourceBacked(a)
            && a.inputs@ == seq![SourceArtifactInput { source, size }],
        Selection::Rom(r) => kind matches PlannedArtifactKind::SourceBacked(a)
            && a.inputs@ == seq![SourceArtifactInput { source: r.source, size: r.size }],
    }
}

/// The CD layout a CUE/BIN rule presents: that of the selected disc of a game.
pub open spec fn cue_layout(s: Selection, item: NormalizedContent) -> Option<CdDisc> {
    match (s, item) {
        (Selection::Disc(d), NormalizedContent::Game(_)) => d.cd_disc,
        _ => None,
    }
}

/// What one (non-multi-disc) rule adds for an item next to the names already taken.
pub open spec fn rule_outcome<N: NamingPolicy, C: ConflictPolicy>(
    rule: FileRuleSpec,
    item: NormalizedContent,
    naming: N,
    conflict: C,
    names: Seq<Seq<char>>,
    entries: Seq<PlanEntry>,
    new_names: Seq<Seq<char>>,
) -> bool {
    if !sources_admitted(rule, item) {
        entries.len() == 0 && new_names == names
    } else {
    match (spec_select(rule.select, item), spec_build_name(rule.naming, item, rule.artifact.format, naming)) {
        (Some(s), Some(proposed)) => if rule.artifact.format == Some(Format::CueBin) {
            match cue_layout(s, item) {
                Some(cd) => {
                    let dir = conflict.resolved(naming.game_name_of(item->Game_0), names);
                    &&& new_names == names.push(dir)
                    &&& entries.len() == 1
                    &&& entries[0] matches PlanEntry::ArtifactSet(set)
                    &&& set.directory_name@ == dir
                    &&& set.artifact_name@ == spec_strip_extension(proposed, Some(Format::CueBin))
                    &&& set.primary_extension@ == "cue"@
                    &&& set.artifact.id.0@ == spec_artifact_id(rule.select, item)
                    &&& requirements_of(set.artifact.requirements, rule.artifact)
                    &&& set.artifact.kind matches PlannedArtifactKind::ContentBacked(ContentArtifact::CdDisc(c)) && c.same(cd)
                },
                None => entries.len() == 0 && new_names == names,
            }
        } else {
            let name = conflict.resolved(spec_apply_extension(proposed, rule.artifact.format), names);
            &&& new_names == names.push(name)
            &&& entries.len() == 1
            &&& entries[0] matches PlanEntry::File(f)
            &&& f.name@ == name
            &&& f.artifact.id.0@ == spec_artifact_id(rule.select, item)
            &&& requirements_of(f.artifact.requirements, rule.artifact)
            &&& kind_of(f.artifact.kind, s)
        },
        _ => entries.len() == 0 && new_names == names,
    }
    }
}

fn kind_for(m: SourceMatch) -> (r: PlannedArtifactKind)
    ensures
        forall|s: Selection| match_of(m, s) ==> kind_of(r, s),
{
    match m.logical_disc {
        Some(l) => PlannedArtifactKind::ContentBacked(ContentArtifact::logical_disc(l)),
        None => PlannedArtifactKind::SourceBacked(SourceArtifact::single(m.source, m.size)),
    }
}

/// Compiles one rule for one item; names taken in the target directory are in `root_names`,
/// which receives the names this rule takes.
fn try_compile_rule<N: NamingPolicy, F: FormattingPolicy, C: ConflictPolicy>(
    rule: &FileRuleSpec,
    item: &NormalizedContent,
    policy: &PolicySet<N, F, C>,
    root_names: &mut Vec<String>,
) -> (r: Vec<PlanEntry>)
    ensures
        !is_multi_select(rule.select) ==> rule_outcome(*rule, *item, policy.naming, policy.conflict, texts(old(root_names)@), r@, texts(final(root_names)@)),
        is_multi_select(rule.select) ==> multi_outcome(*rule, *item, policy.naming, policy.conflict, texts(old(root_names)@), r@, texts(final(root_names)@)),
{
    if !admits_sources(rule, item) {
        return Vec::new();
    }
    match rule.select {
        SelectSpec::MultiDiscGames | SelectSpec::MultiDiscGamesByPlatform { .. } => {
            return try_compile_multi_disc_rule(rule, item, policy, root_names);
        },
        _ => {},
    }
    let matched = match select_content(rule.select, item) {
        Some(m) => m,
        None => {
            return Vec::new();
        },
    };
    let proposed = match build_name(&rule.naming, item, rule.artifact.format, &policy.naming) {
        Some(n) => n,
        None => {
            return Vec::new();
        },
    };
    let ghost selection = spec_select(rule.select, *item)->Some_0;
    let mut entries: Vec<PlanEntry> = Vec::new();
    let cue_bin = match rule.artifact.format {
        Some(Format::CueBin) => true,
        _ => false,
    };
    if cue_bin {
        let game = match item {
            NormalizedContent::Game(g) => g,
            _ => {
                return entries;
            },
        };
        let cd_disc = match matched.cd_disc {
            Some(c) => c,
            None => {
                return entries;
            },
        };
        let game_name = policy.naming.game_name(game);
        let directory_name = policy.resolve_name_conflict(game_name.as_str(), root_names.as_slice());
        let artifact_name = strip_known_extension(proposed.as_str(), Some(Format::CueBin));
        let artifact = ArtifactRequest::new(
            build_artifact_id(rule.select, item),
            PlannedArtifactKind::ContentBacked(ContentArtifact::cd_disc(cd_disc)),
            build_requirements(&rule.artifact),
        );
        let ghost before = root_names@;
        root_names.push(directory_name.clone());
        proof {
            assert(texts(root_names@) =~= texts(before).push(directory_name@));
        }
        entries.push(PlanEntry::ArtifactSet(PlanArtifactSet::new(directory_name, artifact_name, "cue", artifact)));
        proof {
            reveal_strlit("cue");
        }
        return entries;
    }
    let name = apply_extension(proposed, rule.artifact.format);
    let allocated = policy.resolve_name_conflict(name.as_str(), root_names.as_slice());
    let ghost before = root_names@;
    root_names.push(allocated.clone());
    proof {
        assert(texts(root_names@) =~= texts(before).push(allocated@));
    }
    let kind = kind_for(matched);
    let artifact = ArtifactRequest::new(build_artifact_id(rule.select, item), kind, build_requirements(&rule.artifact));
    entries.push(PlanEntry::File(PlanFile::new(allocated, artifact)));
    entries
}

/// The name a multi-disc rule proposes for the disc at position `pos`.
pub open spec fn multi_proposed<N: NamingPolicy>(rule: FileRuleSpec, item: NormalizedContent, naming: N, pos: int) -> Option<Seq<char>> {
    match rule.naming {
        NamingSpec::PartName => Some(naming.part_name_of(item->Game_0, item->Game_0.parts@[pos])),
        _ => spec_build_name(rule.naming, item, rule.artifact.format, naming),
    }
}

/// The names taken after the discs at `sorted` positions are named in turn.
pub open spec fn multi_names<N: NamingPolicy, C: ConflictPolicy>(
    rule: FileRuleSpec,
    item: NormalizedContent,
    naming: N,
    conflict: C,
    names: Seq<Seq<char>>,
    sorted: Seq<int>,
) -> Seq<Seq<char>>
    decreases sorted.len(),
{
    if sorted.len() == 0 {
        names
    } else {
        let before = multi_names(rule, item, naming, conflict, names, sorted.drop_last());
        match multi_proposed(rule, item, naming, sorted.last()) {
            Some(p) => before.push(conflict.resolved(spec_apply_extension(p, rule.artifact.format), before)),
            None => before,
        }
    }
}

/// The artifact id of a game's disc.
pub open spec fn disc_artifact_id(game: GameContent, number: u32) -> Seq<char> {
    "game:"@ + game.id.0@ + ":disc:"@ + decimal(number as nat)
}

/// Whether a multi-disc rule applies to an item.
pub open spec fn multi_applies(select: SelectSpec, item: NormalizedContent) -> bool {
    &&& item is Game
    &&& spec_is_multi_disc(item->Game_0)
    &&& (select matches SelectSpec::MultiDiscGamesByPlatform { platform } ==> item->Game_0.platform == platform)
}

/// What a multi-disc rule adds for an item: one file per disc in disc order, or one
/// playlist that references them.
pub open spec fn multi_outcome<N: NamingPolicy, C: ConflictPolicy>(
    rule: FileRuleSpec,
    item: NormalizedContent,
    naming: N,
    conflict: C,
    names: Seq<Seq<char>>,
    entries: Seq<PlanEntry>,
    new_names: Seq<Seq<char>>,
) -> bool {
    if !multi_applies(rule.select, item) || !sources_admitted(rule, item) {
        entries.len() == 0 && new_names == names
    } else {
        let game = item->Game_0;
        let sorted = sorted_positions(game.parts@, game.parts@.len() as int);
        match rule.artifact.content_type {
            ContentType::Disc => {
                &&& new_names == multi_names(rule, item, naming, conflict, names, sorted)
                &&& if rule.naming is PartName || spec_build_name(rule.naming, item, rule.artifact.format, naming) is Some {
                    &&& entries.len() == sorted.len()
                    &&& forall|k: int| #![trigger entries[k]] 0 <= k < sorted.len() ==> {
                        let disc = game.parts@[sorted[k]]->Disc_0;
                        &&& entries[k] matches PlanEntry::File(f)
                        &&& f.name@ == new_names[names.len() + k]
                        &&& f.artifact.id.0@ == disc_artifact_id(game, disc.disc_number)
                        &&& requirements_of(f.artifact.requirements, rule.artifact)
                        &&& kind_of(f.artifact.kind, Selection::Disc(disc))
                    }
                } else {
                    entries.len() == 0
                }
            },
            ContentType::Playlist => match spec_build_name(rule.naming, item, rule.artifact.format, naming) {
                Some(proposed) => {
                    let name = conflict.resolved(spec_apply_extension(proposed, rule.artifact.format), names);
                    &&& new_names == names.push(name)
                    &&& entries.len() == 1
                    &&& entries[0] matches PlanEntry::File(f)
                    &&& f.name@ == name
                    &&& f.artifact.id.0@ == "game:"@ + game.id.0@ + ":playlist"@
                    &&& requirements_of(f.artifact.requirements, rule.artifact)
                    &&& f.artifact.kind matches PlannedArtifactKind::Generated(GeneratedArtifact::Playlist(p))
                    &&& p.entries@.len() == sorted.len()
                    &&& forall|k: int| 0 <= k < sorted.len() ==> (#[trigger] p.entries@[k]).artifact_id.0@
                        == disc_artifact_id(game, game.parts@[sorted[k]]->Disc_0.disc_number)
                },
                None => entries.len() == 0 && new_names == names,
            },
            _ => entries.len() == 0 && new_names == names,
        }
    }
}

proof fn lemma_multi_names_len<N: NamingPolicy, C: ConflictPolicy>(
    rule: FileRuleSpec,
    item: NormalizedContent,
    naming: N,
    conflict: C,
    names: Seq<Seq<char>>,
    sorted: Seq<int>,
)
    requires
        rule.naming is PartName || spec_build_name(rule.naming, item, rule.artifact.format, naming) is Some,
    ensures
        multi_names(rule, item, naming, conflict, names, sorted).len() == names.len() + sorted.len(),
        names.len() <= multi_names(rule, item, naming, conflict, names, sorted).len(),
        multi_names(rule, item, naming, conflict, names, sorted).take(names.len() as int) == names,
    decreases sorted.len(),
{
    if sorted.len() > 0 {
        lemma_multi_names_len(rule, item, naming, conflict, names, sorted.drop_last());
        let before = multi_names(rule, item, naming, conflict, names, sorted.drop_last());
        assert(before.push(conflict.resolved(spec_apply_extension(multi_proposed(rule, item, naming, sorted.last())->Some_0, rule.artifact.format), before)).take(names.len() as int) =~= before.take(names.len() as int));
    } else {
        assert(names.take(names.len() as int) =~= names);
    }
}

pub(crate) fn disc_id(game: &GameContent, number: u32) -> (r: ArtifactId)
    ensures
        r.0@ == disc_artifact_id(*game, number),
{
    let mut id = concat3("game:", game.id.0.as_str(), ":disc:");
    let n = decimal_string(number as u64);
    id.append(n.as_str());
    ArtifactId::new(id)
}

fn disc_kind(disc: &DiscPart) -> (r: PlannedArtifactKind)
    ensures
        kind_of(r, Selection::Disc(*disc)),
{
    match &disc.logical_disc {
        Some(l) => PlannedArtifactKind::ContentBacked(ContentArtifact::logical_disc(l.clone())),
        None => PlannedArtifactKind::SourceBacked(SourceArtifact::single(disc.source.clone(), 0)),
    }
}

/// Compiles a multi-disc rule for one item.
fn try_compile_multi_disc_rule<N: NamingPolicy, F: FormattingPolicy, C: ConflictPolicy>(
    rule: &FileRuleSpec,
    item: &NormalizedContent,
    policy: &PolicySet<N, F, C>,
    names: &mut Vec<String>,
) -> (r: Vec<PlanEntry>)
    requires
        is_multi_select(rule.select),
        sources_admitted(*rule, *item),
    ensures
        multi_outcome(*rule, *item, policy.naming, policy.conflict, texts(old(names)@), r@, texts(final(names)@)),
{
    let mut entries: Vec<PlanEntry> = Vec::new();
    let game = match item {
        NormalizedContent::Game(g) => g,
        _ => {
            return entries;
        },
    };
    if !is_multi_disc_game(game) {
        return entries;
    }
    match rule.select {
        SelectSpec::MultiDiscGamesByPlatform { platform } => {
            if game.platform != platform {
                return entries;
            }
        },
        _ => {},
    }
    let sorted = sorted_disc_entries(game);
    let ghost positions = sorted_positions(game.parts@, game.parts@.len() as int);
    let ghost start = texts(names@);
    match rule.artifact.content_type {
        ContentType::Disc => {
            let shared = match &rule.naming {
                NamingSpec::PartName => None,
                _ => match build_name(&rule.naming, item, rule.artifact.format, &policy.naming) {
                    Some(n) => Some(n),
                    None => {
                        proof {
                            lemma_multi_names_none(*rule, *item, policy.naming, policy.conflict, start, positions);
                        }
                        return entries;
                    },
                },
            };
            let mut k: usize = 0;
            while k < sorted.len()
                invariant
                    k <= sorted@.len(),
                    positions == crate::output::presentation_expansion::positions(sorted@),
                    forall|i: int| 0 <= i < sorted@.len() ==> (#[trigger] sorted@[i]).0 < game.parts@.len()
                        && game.parts@[sorted@[i].0 as int] == GamePart::Disc(*sorted@[i].1),
                    *item == NormalizedContent::Game(*game),
                    rule.naming is PartName ==> shared is None,
                    !(rule.naming is PartName) ==> (shared matches Some(n)
                        && spec_build_name(rule.naming, *item, rule.artifact.format, policy.naming) == Some(n@)),
                    texts(names@) == multi_names(*rule, *item, policy.naming, policy.conflict, start, positions.take(k as int)),
                    start.len() + k == names@.len(),
                    entries@.len() == k,
                    forall|j: int| #![trigger entries@[j]] 0 <= j < k ==> {
                        let disc = game.parts@[positions[j]]->Disc_0;
                        &&& entries@[j] matches PlanEntry::File(f)
                        &&& f.name@ == texts(names@)[start.len() + j]
                        &&& f.artifact.id.0@ == disc_artifact_id(*game, disc.disc_number)
                        &&& requirements_of(f.artifact.requirements, rule.artifact)
                        &&& kind_of(f.artifact.kind, Selection::Disc(disc))
                    },
                decreases sorted@.len() - k,
            {
                let (pos, disc) = sorted[k];
                let proposed = match &shared {
                    Some(n) => n.clone(),
                    None => policy.naming.part_name(game, &game.parts[pos]),
                };
                let name = apply_extension(proposed, rule.artifact.format);
                let allocated = policy.resolve_name_conflict(name.as_str(), names.as_slice());
                let ghost before = names@;
                names.push(allocated.clone());
                let artifact = ArtifactRequest::new(disc_id(game, disc.disc_number), disc_kind(disc), build_requirements(&rule.artifact));
                entries.push(PlanEntry::File(PlanFile::new(allocated, artifact)));
                proof {
                    assert(positions[k as int] == pos as int);
                    assert(positions.take(k + 1).drop_last() =~= positions.take(k as int));
                    assert(positions.take(k + 1).last() == pos as int);
                    assert(texts(names@) =~= texts(before).push(allocated@));
                    assert forall|j: int| #![trigger entries@[j]] 0 <= j < k + 1 implies {
                        let d = game.parts@[positions[j]]->Disc_0;
                        &&& entries@[j] matches PlanEntry::File(f)
                        &&& f.name@ == texts(names@)[start.len() + j]
                        &&& f.artifact.id.0@ == disc_artifact_id(*game, d.disc_number)
                        &&& requirements_of(f.artifact.requirements, rule.artifact)
                        &&& kind_of(f.artifact.kind, Selection::Disc(d))
                    } by {
                        if j < k {
                            assert(texts(names@)[start.len() + j] == texts(before)[start.len() + j]);
                        }
                    }
                }
                k = k + 1;
            }
            proof {
                assert(positions.take(positions.len() as int) =~= positions);
            }
            entries
        },
        ContentType::Playlist => {
            let proposed = match build_name(&rule.naming, item, rule.artifact.format, &policy.naming) {
                Some(n) => n,
                None => {
                    return entries;
                },
            };
            let name = apply_extension(proposed, rule.artifact.format);
            let allocated = policy.resolve_name_conflict(name.as_str(), names.as_slice());
            let ghost before = names@;
            names.push(allocated.clone());
            proof {
                assert(texts(names@) =~= texts(before).push(allocated@));
            }
            let mut references: Vec<ArtifactReference> = Vec::new();
            let mut k: usize = 0;
            while k < sorted.len()
                invariant
                    k <= sorted@.len(),
                    positions == crate::output::presentation_expansion::positions(sorted@),
                    forall|i: int| 0 <= i < sorted@.len() ==> (#[trigger] sorted@[i]).0 < game.parts@.len()
                        && game.parts@[sorted@[i].0 as int] == GamePart::Disc(*sorted@[i].1),
                    references@.len() == k,
                    forall|j: int| 0 <= j < k ==> (#[trigger] references@[j]).artifact_id.0@
                        == disc_artifact_id(*game, game.parts@[positions[j]]->Disc_0.disc_number),
                decreases sorted@.len() - k,
            {
                let (pos, disc) = sorted[k];
                assert(positions[k as int] == pos as int);
                references.push(ArtifactReference::new(disc_id(game, disc.disc_number)));
                k = k + 1;
            }
            let id = concat3("game:", game.id.0.as_str(), ":playlist");
            let artifact = ArtifactRequest::new(
                ArtifactId::new(id),
                PlannedArtifactKind::Generated(GeneratedArtifact::Playlist(PlaylistArtifact::new(references))),
                build_requirements(&rule.artifact),
            );
            entries.push(PlanEntry::File(PlanFile::new(allocated, artifact)));
            entries
        },
        _ => entries,
    }
}

proof fn lemma_multi_names_none<N: NamingPolicy, C: ConflictPolicy>(
    rule: FileRuleSpec,
    item: NormalizedContent,
    naming: N,
    conflict: C,
    names: Seq<Seq<char>>,
    sorted: Seq<int>,
)
    requires
        !(rule.naming is PartName),
        spec_build_name(rule.naming, item, rule.artifact.format, naming) is None,
    ensures
        multi_names(rule, item, naming, conflict, names, sorted) == names,
    decreases sorted.len(),
{
    if sorted.len() > 0 {
        lemma_multi_names_none(rule, item, naming, conflict, names, sorted.drop_last());
    }
}

/// The names the entries occupy, in order.
pub open spec fn entry_names(entries: Seq<PlanEntry>) -> Seq<Seq<char>> {
    entries.map_values(|e: PlanEntry| spec_entry_name(e))
}

/// Whether `after` is `before` followed by what one rule adds for an item, given the names
/// `before` takes.
pub open spec fn rule_applied<N: NamingPolicy, C: ConflictPolicy>(
    rule: FileRuleSpec,
    item: NormalizedContent,
    naming: N,
    conflict: C,
    before: Seq<PlanEntry>,
    after: Seq<PlanEntry>,
) -> bool {
    &&& before.len() <= after.len()
    &&& after.subrange(0, before.len() as int) == before
    &&& {
        let added = after.subrange(before.len() as int, after.len() as int);
        if is_multi_select(rule.select) {
            multi_outcome(rule, item, naming, conflict, entry_names(before), added, entry_names(after))
        } else {
            rule_outcome(rule, item, naming, conflict, entry_names(before), added, entry_names(after))
        }
    }
}

/// `after` is `before` with the entries of its directory `index` changed from `inner` to
/// `inner_after`, the directory keeping its name.
pub open spec fn dir_replaced(
    before: Seq<PlanEntry>,
    index: int,
    inner: Seq<PlanEntry>,
    inner_after: Seq<PlanEntry>,
    after: Seq<PlanEntry>,
) -> bool {
    &&& 0 <= index < before.len()
    &&& after.len() == before.len()
    &&& forall|k: int| 0 <= k < before.len() && k != index ==> #[trigger] after[k] == before[k]
    &&& before[index] matches PlanEntry::Directory(d)
    &&& d.entries@ == inner
    &&& after[index] matches PlanEntry::Directory(e)
    &&& e.name == d.name
    &&& e.entries@ == inner_after
}

/// Whether `after` is `before` once `rule` is applied for `item` below the directories
/// `parents[depth..]`, each found or added in turn.
pub open spec fn rule_applied_at<N: NamingPolicy, C: ConflictPolicy>(
    rule: FileRuleSpec,
    item: NormalizedContent,
    naming: N,
    conflict: C,
    parents: Seq<Seq<char>>,
    depth: int,
    before: Seq<PlanEntry>,
    after: Seq<PlanEntry>,
) -> bool
    decreases parents.len() - depth,
{
    if depth >= parents.len() {
        rule_applied(rule, item, naming, conflict, before, after)
    } else {
        exists|root: Seq<PlanEntry>, i: int, inner: Seq<PlanEntry>, inner_after: Seq<PlanEntry>|
            #![trigger child_ensured(conflict, before, parents[depth], root, i), dir_replaced(root, i, inner, inner_after, after)]
            child_ensured(conflict, before, parents[depth], root, i)
            && dir_replaced(root, i, inner, inner_after, after)
            && rule_applied_at(rule, item, naming, conflict, parents, depth + 1, inner, inner_after)
    }
}

/// `after` is `before` with a new empty directory under the conflict policy's name for
/// `proposed`, and `index` is the first directory of that name.
pub open spec fn distinct_child_added<C: ConflictPolicy>(
    conflict: C,
    before: Seq<PlanEntry>,
    proposed: Seq<char>,
    after: Seq<PlanEntry>,
    index: int,
) -> bool {
    let resolved = conflict.resolved(proposed, entry_names(before));
    &&& after.len() == before.len() + 1
    &&& after.drop_last() == before
    &&& new_dir(after.last(), resolved)
    &&& first_dir(after, resolved) == Some(index)
}

/// Whether `after` is `before` once every rule is applied in turn for `item` below the
/// directories `parents[depth..]`, each found or added in turn.
pub open spec fn rules_applied_at<N: NamingPolicy, C: ConflictPolicy>(
    rules: Seq<FileRuleSpec>,
    item: NormalizedContent,
    naming: N,
    conflict: C,
    parents: Seq<Seq<char>>,
    depth: int,
    before: Seq<PlanEntry>,
    after: Seq<PlanEntry>,
) -> bool
    decreases parents.len() - depth,
{
    if depth >= parents.len() {
        exists|run: Seq<Seq<PlanEntry>>|
            #![trigger run.len(), run[0]]
            run.len() == rules.len() + 1 && run[0] == before && run.last() == after
            && forall|j: int| 0 <= j < rules.len() ==> rule_applied_at(rules[j], item, naming, conflict,
                texts(rules[j].directory@), 0, #[trigger] run[j], run[j + 1])
    } else {
        exists|root: Seq<PlanEntry>, i: int, inner: Seq<PlanEntry>, inner_after: Seq<PlanEntry>|
            #![trigger child_ensured(conflict, before, parents[depth], root, i), dir_replaced(root, i, inner, inner_after, after)]
            child_ensured(conflict, before, parents[depth], root, i)
            && dir_replaced(root, i, inner, inner_after, after)
            && rules_applied_at(rules, item, naming, conflict, parents, depth + 1, inner, inner_after)
    }
}

/// What one item adds to a grouped compilation: a game gets a new directory of its own in
/// its platform directory, holding what the rules make of it; loose bytes and text go
/// below the parent directories of their id.
pub open spec fn grouped_item_compiled<N: NamingPolicy, F: FormattingPolicy, C: ConflictPolicy>(
    rules: Seq<FileRuleSpec>,
    item: NormalizedContent,
    naming: N,
    formatting: F,
    conflict: C,
    before: Seq<PlanEntry>,
    after: Seq<PlanEntry>,
) -> bool {
    match item {
        NormalizedContent::Game(game) => {
            let platform = formatting.formatted(naming.platform_name_of(game.platform));
            let title = formatting.formatted(naming.game_name_of(game));
            exists|root: Seq<PlanEntry>, p: int, inner: Seq<PlanEntry>, inner_after: Seq<PlanEntry>,
                mid: Seq<PlanEntry>, g: int, game_entries: Seq<PlanEntry>, game_after: Seq<PlanEntry>|
                #![trigger child_ensured(conflict, before, platform, root, p), distinct_child_added(conflict, inner, title, mid, g),
                    dir_replaced(mid, g, game_entries, game_after, inner_after)]
                child_ensured(conflict, before, platform, root, p)
                && dir_replaced(root, p, inner, inner_after, after)
                && distinct_child_added(conflict, inner, title, mid, g)
                && dir_replaced(mid, g, game_entries, game_after, inner_after)
                && rules_applied_at(rules, item, naming, conflict, Seq::empty(), 0, game_entries, game_after)
        },
        _ => rules_applied_at(rules, item, naming, conflict, spec_split_parent_dirs(spec_content_id(item).0@).0, 0, before, after),
    }
}

/// Whether `states` records a grouped compilation: empty at first, each item's entries
/// placed into the previous ones.
pub open spec fn grouped_run<N: NamingPolicy, F: FormattingPolicy, C: ConflictPolicy>(
    rules: Seq<FileRuleSpec>,
    items: Seq<NormalizedContent>,
    naming: N,
    formatting: F,
    conflict: C,
    states: Seq<Seq<PlanEntry>>,
) -> bool {
    &&& states.len() == items.len() + 1
    &&& states[0] == Seq::<PlanEntry>::empty()
    &&& forall|i: int| 0 <= i < items.len() ==> grouped_item_compiled(rules, #[trigger] items[i], naming, formatting, conflict,
        states[i], states[i + 1])
}

/// Whether `runs` records a flat compilation: for each item in turn, the entries before
/// each rule and after the last one, every rule applied to the previous entries.
pub open spec fn flat_run<N: NamingPolicy, C: ConflictPolicy>(
    rules: Seq<FileRuleSpec>,
    items: Seq<NormalizedContent>,
    naming: N,
    conflict: C,
    runs: Seq<Seq<Seq<PlanEntry>>>,
) -> bool {
    &&& runs.len() == items.len()
    &&& forall|i: int| 0 <= i < runs.len() ==> (#[trigger] runs[i]).len() == rules.len() + 1
    &&& forall|i: int, j: int| 0 <= i < runs.len() && 0 <= j < rules.len() ==> rule_applied_at(
        rules[j],
        items[i],
        naming,
        conflict,
        texts(rules[j].directory@),
        0,
        #[trigger] runs[i][j],
        runs[i][j + 1],
    )
    &&& forall|i: int| 0 < i < runs.len() ==> (#[trigger] runs[i])[0] == runs[i - 1][rules.len() as int]
    &&& runs.len() > 0 ==> runs[0][0] == Seq::<PlanEntry>::empty()
}

/// The entries a flat run ends with.
pub open spec fn run_result(runs: Seq<Seq<Seq<PlanEntry>>>) -> Seq<PlanEntry> {
    if runs.len() == 0 {
        Seq::empty()
    } else {
        runs.last().last()
    }
}

pub(crate) fn child_names(directory: &PlanDirectory) -> (r: Vec<String>)
    ensures
        texts(r@) == entry_names(directory.entries@),
{
    let mut names: Vec<String> = Vec::new();
    let mut i: usize = 0;
    while i < directory.entries.len()
        invariant
            i <= directory.entries@.len(),
            texts(names@) == entry_names(directory.entries@.take(i as int)),
        decreases directory.entries@.len() - i,
    {
        let name = match &directory.entries[i] {
            PlanEntry::Directory(d) => d.name.clone(),
            PlanEntry::File(f) => f.name.clone(),
            PlanEntry::ArtifactSet(s) => s.directory_name.clone(),
        };
        let ghost before = names@;
        names.push(name);
        proof {
            assert(texts(names@) =~= texts(before).push(name@));
            assert(entry_names(directory.entries@.take(i + 1)) =~= entry_names(directory.entries@.take(i as int)).push(
                spec_entry_name(directory.entries@[i as int]),
            ));
        }
        i = i + 1;
    }
    assert(directory.entries@.take(directory.entries@.len() as int) =~= directory.entries@);
    names
}

/// Appends the entries one rule adds for an item to `directory`.
fn apply_rule<N: NamingPolicy, F: FormattingPolicy, C: ConflictPolicy>(
    directory: &mut PlanDirectory,
    rule: &FileRuleSpec,
    item: &NormalizedContent,
    policy: &PolicySet<N, F, C>,
)
    ensures
        final(directory).name == old(directory).name,
        rule_applied(*rule, *item, policy.naming, policy.conflict, old(directory).entries@, final(directory).entries@),
{
    let mut names = child_names(directory);
    let ghost before = directory.entries@;
    let mut added = try_compile_rule(rule, item, policy, &mut names);
    let ghost added_seq = added@;
    directory.entries.append(&mut added);
    proof {
        let after = directory.entries@;
        assert(after =~= before + added_seq);
        assert(after.subrange(0, before.len() as int) =~= before);
        assert(after.subrange(before.len() as int, after.len() as int) =~= added_seq);
        assert(entry_names(after) =~= entry_names(before) + entry_names(added_seq));
    }
    proof {
        lemma_names_of_added(*rule, *item, policy.naming, policy.conflict, entry_names(before), added_seq, texts(names@));
    }
}

/// The names an outcome takes are those its entries occupy.
proof fn lemma_names_of_added<N: NamingPolicy, C: ConflictPolicy>(
    rule: FileRuleSpec,
    item: NormalizedContent,
    naming: N,
    conflict: C,
    names: Seq<Seq<char>>,
    added: Seq<PlanEntry>,
    new_names: Seq<Seq<char>>,
)
    requires
        !is_multi_select(rule.select) ==> rule_outcome(rule, item, naming, conflict, names, added, new_names),
        is_multi_select(rule.select) ==> multi_outcome(rule, item, naming, conflict, names, added, new_names),
    ensures
        new_names == names + entry_names(added),
{
    if is_multi_select(rule.select) && multi_applies(rule.select, item) && rule.artifact.content_type == ContentType::Disc {
        let game = item->Game_0;
        let sorted = sorted_positions(game.parts@, game.parts@.len() as int);
        if rule.naming is PartName || spec_build_name(rule.naming, item, rule.artifact.format, naming) is Some {
            lemma_multi_names_len(rule, item, naming, conflict, names, sorted);
            assert forall|k: int| 0 <= k < added.len() implies new_names[names.len() + k] == entry_names(added)[k] by {
                assert(added[k] matches PlanEntry::File(f) && f.name@ == new_names[names.len() + k]);
            }
            assert(new_names =~= names + entry_names(added)) by {
                assert forall|k: int| 0 <= k < names.len() implies new_names[k] == names[k] by {
                    assert(new_names.take(names.len() as int)[k] == new_names[k]);
                }
            }
        } else {
            lemma_multi_names_none(rule, item, naming, conflict, names, sorted);
            assert(names + entry_names(added) =~= names);
        }
    } else {
        assert(added.len() <= 1);
        if added.len() == 1 {
            assert(entry_names(added) =~= seq![spec_entry_name(added[0])]);
        } else {
            assert(names + entry_names(added) =~= names);
        }
    }
}

/// Whether entry `e` is a directory named `name`.
pub open spec fn dir_named(e: PlanEntry, name: Seq<char>) -> bool {
    e matches PlanEntry::Directory(d) && d.name@ == name
}

/// The index of the first child directory named `name`.
pub open spec fn first_dir(entries: Seq<PlanEntry>, name: Seq<char>) -> Option<int>
    decreases entries.len(),
{
    if entries.len() == 0 {
        None
    } else {
        match first_dir(entries.drop_last(), name) {
            Some(i) => Some(i),
            None => if dir_named(entries.last(), name) {
                Some(entries.len() - 1)
            } else {
                None
            },
        }
    }
}

/// `first_dir` finds a directory of that name before which there is none.
pub proof fn lemma_first_dir(entries: Seq<PlanEntry>, name: Seq<char>)
    ensures
        first_dir(entries, name) matches Some(i) ==> 0 <= i < entries.len() && dir_named(entries[i], name)
            && forall|j: int| 0 <= j < i ==> !dir_named(#[trigger] entries[j], name),
        first_dir(entries, name) is None ==> forall|j: int| 0 <= j < entries.len() ==> !dir_named(#[trigger] entries[j], name),
    decreases entries.len(),
{
    if entries.len() > 0 {
        lemma_first_dir(entries.drop_last(), name);
        assert forall|j: int| 0 <= j < entries.len() - 1 implies entries[j] == entries.drop_last()[j] by {}
    }
}

/// Entries added after a directory of the name do not change which comes first.
pub proof fn lemma_first_dir_extend(entries: Seq<PlanEntry>, more: Seq<PlanEntry>, name: Seq<char>)
    requires
        first_dir(entries, name) is Some,
    ensures
        first_dir(entries + more, name) == first_dir(entries, name),
    decreases more.len(),
{
    if more.len() == 0 {
        assert(entries + more =~= entries);
    } else {
        lemma_first_dir_extend(entries, more.drop_last(), name);
        assert((entries + more).drop_last() =~= entries + more.drop_last());
    }
}

/// The index of the first child directory named `name`.
pub(crate) fn directory_index(directory: &PlanDirectory, name: &str) -> (r: Option<usize>)
    ensures
        r matches Some(i) ==> first_dir(directory.entries@, name@) == Some(i as int),
        r is None ==> first_dir(directory.entries@, name@) is None,
        r matches Some(i) ==> i < directory.entries@.len() && (directory.entries@[i as int] matches PlanEntry::Directory(d) && d.name@ == name@),
        r is None ==> forall|j: int| 0 <= j < directory.entries@.len() ==> !(#[trigger] directory.entries@[j] matches PlanEntry::Directory(d) && d.name@ == name@),
{
    let mut i: usize = 0;
    while i < directory.entries.len()
        invariant
            i <= directory.entries@.len(),
            first_dir(directory.entries@.take(i as int), name@) is None,
            forall|j: int| 0 <= j < i ==> !(#[trigger] directory.entries@[j] matches PlanEntry::Directory(d) && d.name@ == name@),
        decreases directory.entries@.len() - i,
    {
        proof {
            assert(directory.entries@.take(i + 1).drop_last() =~= directory.entries@.take(i as int));
        }
        match &directory.entries[i] {
            PlanEntry::Directory(d) => {
                if str_eq(d.name.as_str(), name) {
                    proof {
                        assert(first_dir(directory.entries@.take(i + 1), name@) == Some(i as int));
                        lemma_first_dir_extend(directory.entries@.take(i + 1), directory.entries@.skip(i + 1), name@);
                        assert(directory.entries@.take(i + 1) + directory.entries@.skip(i + 1) =~= directory.entries@);
                    }
                    return Some(i);
                }
            },
            _ => {},
        }
        i = i + 1;
    }
    proof {
        assert(directory.entries@.take(i as int) =~= directory.entries@);
    }
    None
}

/// A new, empty directory named `name`.
pub open spec fn new_dir(e: PlanEntry, name: Seq<char>) -> bool {
    e matches PlanEntry::Directory(d) && d.name@ == name && d.entries@.len() == 0
}

/// `after` and `index` are what finding child directory `segment` in `before` gives: the
/// first directory of that name, or else a new empty directory under the conflict
/// policy's name for `segment`, found again as the first directory of that name.
pub open spec fn child_ensured<C: ConflictPolicy>(
    conflict: C,
    before: Seq<PlanEntry>,
    segment: Seq<char>,
    after: Seq<PlanEntry>,
    index: int,
) -> bool {
    match first_dir(before, segment) {
        Some(i) => after == before && index == i,
        None => {
            let resolved = conflict.resolved(segment, entry_names(before));
            &&& after.len() == before.len() + 1
            &&& after.drop_last() == before
            &&& new_dir(after.last(), resolved)
            &&& first_dir(after, resolved) == Some(index)
        },
    }
}

/// Placing a child directory twice is placing it once, whenever the first placement finds
/// the directory or the conflict policy keeps its name: the second finds the directory
/// the first placed and changes nothing.
pub proof fn lemma_ensure_child_idempotent<C: ConflictPolicy>(
    conflict: C,
    before: Seq<PlanEntry>,
    segment: Seq<char>,
    mid: Seq<PlanEntry>,
    i: int,
    after: Seq<PlanEntry>,
    j: int,
)
    requires
        child_ensured(conflict, before, segment, mid, i),
        child_ensured(conflict, mid, segment, after, j),
        first_dir(before, segment) is Some || conflict.resolved(segment, entry_names(before)) == segment,
    ensures
        after == mid,
        j == i,
{
}

/// `after` is `before` once the directories `segments` are found or added in turn, each
/// inside the one before, and `found` holds the entries of the last of them.
pub open spec fn path_ensured<C: ConflictPolicy>(
    conflict: C,
    before: Seq<PlanEntry>,
    segments: Seq<Seq<char>>,
    after: Seq<PlanEntry>,
    found: Seq<PlanEntry>,
) -> bool
    decreases segments.len(),
{
    if segments.len() == 0 {
        after == before && found == before
    } else {
        exists|root: Seq<PlanEntry>, i: int, inner: Seq<PlanEntry>, inner_after: Seq<PlanEntry>|
            #![trigger child_ensured(conflict, before, segments[0], root, i), dir_replaced(root, i, inner, inner_after, after)]
            child_ensured(conflict, before, segments[0], root, i)
            && dir_replaced(root, i, inner, inner_after, after)
            && path_ensured(conflict, inner, segments.drop_first(), inner_after, found)
    }
}

/// The same tree down to `depth` levels: each entry is equal, or is a directory of the
/// same name whose entries are the same tree one level less deep.
pub open spec fn same_tree(a: Seq<PlanEntry>, b: Seq<PlanEntry>, depth: nat) -> bool
    decreases depth,
{
    &&& a.len() == b.len()
    &&& forall|k: int| 0 <= k < a.len() ==> {
        ||| #[trigger] a[k] == b[k]
        ||| depth > 0 && (a[k] matches PlanEntry::Directory(d) && b[k] matches PlanEntry::Directory(e)
            && d.name == e.name && same_tree(d.entries@, e.entries@, (depth - 1) as nat))
    }
}

/// A rule that adds nothing still finds or adds its directory path: what applying it
/// below `parents[depth..]` gives is what finding or adding that path gives.
pub proof fn lemma_rule_adding_nothing_ensures_path<N: NamingPolicy, C: ConflictPolicy>(
    rule: FileRuleSpec,
    item: NormalizedContent,
    naming: N,
    conflict: C,
    parents: Seq<Seq<char>>,
    depth: int,
    before: Seq<PlanEntry>,
    after: Seq<PlanEntry>,
)
    requires
        0 <= depth <= parents.len(),
        rule_applied_at(rule, item, naming, conflict, parents, depth, before, after),
        forall|e1: Seq<PlanEntry>, e2: Seq<PlanEntry>| #[trigger] rule_applied(rule, item, naming, conflict, e1, e2) ==> e2.len() == e1.len(),
    ensures
        exists|found: Seq<PlanEntry>| #[trigger] path_ensured(conflict, before, parents.subrange(depth, parents.len() as int), after, found),
    decreases parents.len() - depth,
{
    let segments = parents.subrange(depth, parents.len() as int);
    if depth == parents.len() {
        assert(rule_applied(rule, item, naming, conflict, before, after));
        assert(after =~= after.subrange(0, before.len() as int));
        assert(path_ensured(conflict, before, segments, after, before));
    } else {
        let (root, i, inner, inner_after) = choose|root: Seq<PlanEntry>, i: int, inner: Seq<PlanEntry>, inner_after: Seq<PlanEntry>|
            #![trigger child_ensured(conflict, before, parents[depth], root, i), dir_replaced(root, i, inner, inner_after, after)]
            child_ensured(conflict, before, parents[depth], root, i)
            && dir_replaced(root, i, inner, inner_after, after)
            && rule_applied_at(rule, item, naming, conflict, parents, depth + 1, inner, inner_after);
        lemma_rule_adding_nothing_ensures_path(rule, item, naming, conflict, parents, depth + 1, inner, inner_after);
        let found = choose|found: Seq<PlanEntry>| #[trigger] path_ensured(conflict, inner, parents.subrange(depth + 1, parents.len() as int), inner_after, found);
        assert(segments.drop_first() =~= parents.subrange(depth + 1, parents.len() as int));
        assert(segments[0] == parents[depth]);
        assert(path_ensured(conflict, before, segments, after, found));
    }
}

/// Replacing the first directory of a name by another directory of that name keeps it
/// the first.
proof fn lemma_first_dir_replaced(root: Seq<PlanEntry>, i: int, mid: Seq<PlanEntry>, name: Seq<char>)
    requires
        first_dir(root, name) == Some(i),
        mid.len() == root.len(),
        forall|k: int| 0 <= k < root.len() && k != i ==> #[trigger] mid[k] == root[k],
        dir_named(mid[i], name),
    ensures
        first_dir(mid, name) == Some(i),
{
    lemma_first_dir(root, name);
    lemma_first_dir(mid, name);
    match first_dir(mid, name) {
        Some(j) => {
            if j < i {
                assert(mid[j] == root[j]);
            } else if j > i {
                assert(!dir_named(mid[i], name));
            }
        },
        None => {
            assert(!dir_named(mid[i], name));
        },
    }
}

/// Finding or adding a directory path twice is doing it once, when the conflict policy
/// keeps every segment's name: the second time finds a directory with the same entries and
/// leaves the tree as the first left it, each directory on the path keeping its name.
pub proof fn lemma_ensure_path_idempotent<C: ConflictPolicy>(
    conflict: C,
    before: Seq<PlanEntry>,
    segments: Seq<Seq<char>>,
    mid: Seq<PlanEntry>,
    found: Seq<PlanEntry>,
    after: Seq<PlanEntry>,
    found_again: Seq<PlanEntry>,
)
    requires
        forall|k: int, names: Seq<Seq<char>>| 0 <= k < segments.len() ==> #[trigger] conflict.resolved(segments[k], names) == segments[k],
        path_ensured(conflict, before, segments, mid, found),
        path_ensured(conflict, mid, segments, after, found_again),
    ensures
        found_again == found,
        same_tree(mid, after, segments.len()),
    decreases segments.len(),
{
    if segments.len() == 0 {
        assert forall|k: int| 0 <= k < mid.len() implies #[trigger] mid[k] == after[k] || false by {}
    } else {
        let rest = segments.drop_first();
        let (root1, i1, inner1, inner_after1) = choose|root: Seq<PlanEntry>, i: int, inner: Seq<PlanEntry>, inner_after: Seq<PlanEntry>|
            #![trigger child_ensured(conflict, before, segments[0], root, i), dir_replaced(root, i, inner, inner_after, mid)]
            child_ensured(conflict, before, segments[0], root, i)
            && dir_replaced(root, i, inner, inner_after, mid)
            && path_ensured(conflict, inner, rest, inner_after, found);
        let (root2, i2, inner2, inner_after2) = choose|root: Seq<PlanEntry>, i: int, inner: Seq<PlanEntry>, inner_after: Seq<PlanEntry>|
            #![trigger child_ensured(conflict, mid, segments[0], root, i), dir_replaced(root, i, inner, inner_after, after)]
            child_ensured(conflict, mid, segments[0], root, i)
            && dir_replaced(root, i, inner, inner_after, after)
            && path_ensured(conflict, inner, rest, inner_after, found_again);
        assert(conflict.resolved(segments[0], entry_names(before)) == segments[0]);
        assert(first_dir(root1, segments[0]) == Some(i1));
        assert(dir_named(mid[i1], segments[0])) by {
            lemma_first_dir(root1, segments[0]);
        }
        lemma_first_dir_replaced(root1, i1, mid, segments[0]);
        assert(root2 == mid && i2 == i1);
        assert(inner2 == inner_after1);
        assert forall|k: int, names: Seq<Seq<char>>| 0 <= k < rest.len() implies #[trigger] conflict.resolved(rest[k], names) == rest[k] by {
            assert(rest[k] == segments[k + 1]);
        }
        lemma_ensure_path_idempotent(conflict, inner1, rest, inner_after1, found, inner_after2, found_again);
        assert forall|k: int| 0 <= k < mid.len() implies {
            ||| #[trigger] mid[k] == after[k]
            ||| segments.len() > 0 && (mid[k] matches PlanEntry::Directory(d) && after[k] matches PlanEntry::Directory(e)
                && d.name == e.name && same_tree(d.entries@, e.entries@, (segments.len() - 1) as nat))
        } by {
            if k != i1 {
                assert(after[k] == root2[k]);
            }
        }
    }
}

/// The index of the child directory `segment`, added under the name the conflict policy
/// gives it when there is none.
pub(crate) fn ensure_child<N: NamingPolicy, F: FormattingPolicy, C: ConflictPolicy>(
    directory: &mut PlanDirectory,
    segment: &str,
    policy: &PolicySet<N, F, C>,
) -> (r: usize)
    ensures
        final(directory).name == old(directory).name,
        r < final(directory).entries@.len(),
        final(directory).entries@[r as int] is Directory,
        old(directory).entries@.len() <= final(directory).entries@.len() <= old(directory).entries@.len() + 1,
        final(directory).entries@.subrange(0, old(directory).entries@.len() as int) == old(directory).entries@,
        child_ensured(policy.conflict, old(directory).entries@, segment@, final(directory).entries@, r as int),
{
    match directory_index(directory, segment) {
        Some(i) => i,
        None => {
            let existing = child_names(directory);
            let resolved = policy.resolve_name_conflict(segment, existing.as_slice());
            let ghost before = directory.entries@;
            directory.entries.push(PlanEntry::Directory(PlanDirectory::new(resolved.as_str(), Vec::new())));
            assert(directory.entries@.subrange(0, before.len() as int) =~= before);
            assert(directory.entries@.drop_last() =~= before);
            let last = directory.entries.len() - 1;
            match directory_index(directory, resolved.as_str()) {
                Some(i) => i,
                None => {
                    assert(directory.entries@[last as int] matches PlanEntry::Directory(d) && d.name@ == resolved@);
                    last
                },
            }
        },
    }
}

/// Applies a rule under the directory path `parents[depth..]` of `directory`, creating
/// missing directories on the way.
fn apply_rule_in<N: NamingPolicy, F: FormattingPolicy, C: ConflictPolicy>(
    directory: &mut PlanDirectory,
    parents: &[String],
    depth: usize,
    rule: &FileRuleSpec,
    item: &NormalizedContent,
    policy: &PolicySet<N, F, C>,
)
    requires
        depth <= parents@.len(),
    ensures
        final(directory).name == old(directory).name,
        rule_applied_at(*rule, *item, policy.naming, policy.conflict, texts(parents@), depth as int,
            old(directory).entries@, final(directory).entries@),
    decreases parents@.len() - depth,
{
    if depth == parents.len() {
        apply_rule(directory, rule, item, policy);
        return;
    }
    let ghost before = directory.entries@;
    let index = ensure_child(directory, parents[depth].as_str(), policy);
    let ghost root1 = directory.entries@;
    let mut taken = PlanEntry::Directory(PlanDirectory::new("", Vec::new()));
    std::mem::swap(&mut taken, &mut directory.entries[index]);
    match taken {
        PlanEntry::Directory(mut child) => {
            let ghost inner = child.entries@;
            apply_rule_in(&mut child, parents, depth + 1, rule, item, policy);
            directory.entries.set(index, PlanEntry::Directory(child));
            proof {
                let after = directory.entries@;
                assert(texts(parents@)[depth as int] == parents@[depth as int]@);
                assert(dir_replaced(root1, index as int, inner, child.entries@, after));
                assert(rule_applied_at(*rule, *item, policy.naming, policy.conflict, texts(parents@), depth as int, before, after));
            }
        },
        other => {
            proof {
                assert(false);
            }
            directory.entries.set(index, other);
        },
    }
}

/// Compiles every rule for every item into one directory tree.
#[verifier::spinoff_prover]
#[verifier::rlimit(30)]
fn compile_flat<N: NamingPolicy, F: FormattingPolicy, C: ConflictPolicy>(
    spec: &PresentationSpec,
    content: &[NormalizedContent],
    policy: &PolicySet<N, F, C>,
) -> (r: PresentationPlan)
    ensures
        flat_outcome(spec.files@, content@, policy.naming, policy.conflict, r.entries@),
{
    let mut root = PlanDirectory::new("", Vec::new());
    let ghost mut runs: Seq<Seq<Seq<PlanEntry>>> = Seq::empty();
    let mut i: usize = 0;
    while i < content.len()
        invariant
            i <= content@.len(),
            flat_run(spec.files@, content@.take(i as int), policy.naming, policy.conflict, runs),
            run_result(runs) == root.entries@,
        decreases content@.len() - i,
    {
        let item = &content[i];
        let ghost start_entries = root.entries@;
        let ghost mut run: Seq<Seq<PlanEntry>> = seq![root.entries@];
        let mut j: usize = 0;
        while j < spec.files.len()
            invariant
                j <= spec.files@.len(),
                i < content@.len(),
                *item == content@[i as int],
                run.len() == j + 1,
                run[0] == start_entries,
                run.last() == root.entries@,
                forall|k: int| 0 <= k < j ==> rule_applied_at(spec.files@[k], content@[i as int], policy.naming, policy.conflict,
                    texts(spec.files@[k].directory@), 0, #[trigger] run[k], run[k + 1]),
            decreases spec.files@.len() - j,
        {
            let rule = &spec.files[j];
            let ghost before = root.entries@;
            apply_rule_in(&mut root, rule.directory.as_slice(), 0, rule, item, policy);
            proof {
                run = run.push(root.entries@);
            }
            j = j + 1;
        }
        proof {
            let old_runs = runs;
            runs = runs.push(run);
            let items = content@.take(i + 1);
            assert(items.take(i as int) =~= content@.take(i as int));
            assert forall|a: int, b: int| 0 <= a < runs.len() && 0 <= b < spec.files@.len() implies rule_applied_at(
                spec.files@[b], items[a], policy.naming, policy.conflict, texts(spec.files@[b].directory@), 0,
                #[trigger] runs[a][b], runs[a][b + 1]) by {
                if a < i {
                    assert(runs[a] == old_runs[a]);
                    assert(items[a] == content@.take(i as int)[a]);
                }
            }
            assert forall|a: int| 0 < a < runs.len() implies (#[trigger] runs[a])[0] == runs[a - 1][spec.files@.len() as int] by {
                if a < i {
                    assert(runs[a] == old_runs[a]);
                } else {
                    assert(runs[a] == run);
                    assert(runs[a - 1] == old_runs.last());
                }
            }
            if i == 0 {
                assert(runs[0] == run);
            }
        }
        i = i + 1;
    }
    proof {
        assert(content@.take(content@.len() as int) =~= content@);
    }
    PresentationPlan::new(root.entries)
}

/// A path with `\` read as `/` and the `/` at either end removed.
pub open spec fn spec_normalize_path(path: Seq<char>) -> Seq<char> {
    trim_slashes(path.map_values(|c: char| if c == '\\' { '/' } else { c }))
}

/// A sequence without the `/` at its start and end.
pub open spec fn trim_slashes(s: Seq<char>) -> Seq<char>
    decreases s.len(),
{
    if s.len() > 0 && s[0] == '/' {
        trim_slashes(s.drop_first())
    } else if s.len() > 0 && s.last() == '/' {
        trim_slashes(s.drop_last())
    } else {
        s
    }
}

/// The non-empty `/`-separated segments of a path, in order.
pub open spec fn segments(s: Seq<char>) -> Seq<Seq<char>>
    decreases s.len(),
{
    if last_index_of(s, '/') == -1 {
        if s.len() == 0 { Seq::empty() } else { seq![s] }
    } else {
        proof {
            crate::text::lemma_last_index_of(s, '/');
        }
        let rest = segments(before_last(s, '/'));
        if after_last(s, '/').len() == 0 { rest } else { rest.push(after_last(s, '/')) }
    }
}

/// A path's parent directories and its final name.
pub open spec fn spec_split_parent_dirs(path: Seq<char>) -> (Seq<Seq<char>>, Seq<char>) {
    let n = spec_normalize_path(path);
    if last_index_of(n, '/') == -1 {
        (Seq::empty(), n)
    } else {
        (segments(before_last(n, '/')), after_last(n, '/'))
    }
}

fn normalize_path(path: &str) -> (r: Vec<char>)
    ensures
        r@ == spec_normalize_path(path@),
{
    let chars = chars_of(path);
    let mut replaced: Vec<char> = Vec::new();
    let mut i: usize = 0;
    while i < chars.len()
        invariant
            i <= chars@.len(),
            replaced@ == chars@.take(i as int).map_values(|c: char| if c == '\\' { '/' } else { c }),
        decreases chars@.len() - i,
    {
        let c = chars[i];
        replaced.push(if c == '\\' { '/' } else { c });
        i = i + 1;
        assert(replaced@ =~= chars@.take(i as int).map_values(|c: char| if c == '\\' { '/' } else { c }));
    }
    assert(chars@.take(chars@.len() as int) =~= chars@);
    let ghost full = replaced@;
    let mut lo: usize = 0;
    let mut hi: usize = replaced.len();
    assert(full.subrange(0, full.len() as int) =~= full);
    while lo < hi && (replaced[lo] == '/' || replaced[hi - 1] == '/')
        invariant
            lo <= hi <= replaced@.len(),
            replaced@ == full,
            trim_slashes(full) == trim_slashes(full.subrange(lo as int, hi as int)),
        decreases hi - lo,
    {
        let ghost sub = full.subrange(lo as int, hi as int);
        if replaced[lo] == '/' {
            assert(sub.drop_first() =~= full.subrange(lo + 1, hi as int));
            lo = lo + 1;
        } else {
            assert(sub.drop_last() =~= full.subrange(lo as int, hi - 1));
            hi = hi - 1;
        }
    }
    let mut out: Vec<char> = Vec::new();
    let mut k: usize = lo;
    while k < hi
        invariant
            lo <= k <= hi <= replaced@.len(),
            out@ == replaced@.subrange(lo as int, k as int),
        decreases hi - k,
    {
        out.push(replaced[k]);
        k = k + 1;
        assert(out@ =~= replaced@.subrange(lo as int, k as int));
    }
    out
}

fn split_segments(chars: &[char], end: usize) -> (r: Vec<String>)
    requires
        end <= chars@.len(),
    ensures
        texts(r@) == segments(chars@.take(end as int)),
    decreases end,
{
    let ghost s = chars@.take(end as int);
    let mut i: usize = end;
    while i > 0 && chars[i - 1] != '/'
        invariant
            i <= end <= chars@.len(),
            s == chars@.take(end as int),
            forall|j: int| i <= j < end ==> chars@[j] != '/',
        decreases i,
    {
        i = i - 1;
    }
    proof {
        crate::text::lemma_last_index_of(s, '/');
    }
    if i == 0 {
        proof {
            assert forall|j: int| 0 <= j < s.len() implies s[j] != '/' by {
                assert(s[j] == chars@[j]);
            }
            lemma_no_slash(s);
        }
        let mut r: Vec<String> = Vec::new();
        if end > 0 {
            r.push(string_from_range(chars, 0, end));
            assert(texts(r@) =~= seq![s]);
        } else {
            assert(texts(r@) =~= Seq::<Seq<char>>::empty());
        }
        return r;
    }
    proof {
        lemma_last_slash(s, i - 1);
        assert(before_last(s, '/') =~= chars@.take(i - 1));
    }
    let mut r = split_segments(chars, i - 1);
    if i < end {
        let ghost before = r@;
        assert(after_last(s, '/') =~= chars@.subrange(i as int, end as int));
        r.push(string_from_range(chars, i, end));
        assert(texts(r@) =~= texts(before).push(after_last(s, '/')));
    } else {
        assert(after_last(s, '/').len() == 0);
    }
    r
}

proof fn lemma_no_slash(s: Seq<char>)
    requires
        forall|j: int| 0 <= j < s.len() ==> s[j] != '/',
    ensures
        last_index_of(s, '/') == -1,
    decreases s.len(),
{
    if s.len() > 0 {
        lemma_no_slash(s.drop_last());
    }
}

proof fn lemma_last_slash(s: Seq<char>, k: int)
    requires
        0 <= k < s.len(),
        s[k] == '/',
        forall|j: int| k < j < s.len() ==> s[j] != '/',
    ensures
        last_index_of(s, '/') == k,
    decreases s.len(),
{
    if k < s.len() - 1 {
        lemma_last_slash(s.drop_last(), k);
    }
}

/// A path's parent directories and its final name.
pub(crate) fn split_parent_dirs(path: &str) -> (r: (Vec<String>, String))
    ensures
        texts(r.0@) == spec_split_parent_dirs(path@).0,
        r.1@ == spec_split_parent_dirs(path@).1,
{
    let normalized = normalize_path(path);
    match find_last(normalized.as_slice(), '/') {
        Some(i) => {
            assert(i < normalized@.len());
            let parents = split_segments(normalized.as_slice(), i);
            assert(normalized@.take(i as int) =~= before_last(normalized@, '/'));
            let start = i + 1;
            (parents, string_from_range(normalized.as_slice(), start, normalized.len()))
        },
        None => {
            let r: Vec<String> = Vec::new();
            assert(texts(r@) =~= Seq::<Seq<char>>::empty());
            (r, string_from_range(normalized.as_slice(), 0, normalized.len()))
        },
    }
}

/// Navigates the directory path `parents[depth..]`, creating what is missing, and there
/// applies each rule.
fn apply_rules_at<N: NamingPolicy, F: FormattingPolicy, C: ConflictPolicy>(
    directory: &mut PlanDirectory,
    parents: &[String],
    depth: usize,
    rules: &[FileRuleSpec],
    item: &NormalizedContent,
    policy: &PolicySet<N, F, C>,
)
    requires
        depth <= parents@.len(),
    ensures
        final(directory).name == old(directory).name,
        rules_applied_at(rules@, *item, policy.naming, policy.conflict, texts(parents@), depth as int,
            old(directory).entries@, final(directory).entries@),
    decreases parents@.len() - depth,
{
    let ghost before = directory.entries@;
    if depth == parents.len() {
        let ghost mut run: Seq<Seq<PlanEntry>> = seq![directory.entries@];
        let mut j: usize = 0;
        while j < rules.len()
            invariant
                j <= rules@.len(),
                directory.name == old(directory).name,
                run.len() == j + 1,
                run[0] == before,
                run.last() == directory.entries@,
                forall|k: int| 0 <= k < j ==> rule_applied_at(rules@[k], *item, policy.naming, policy.conflict,
                    texts(rules@[k].directory@), 0, #[trigger] run[k], run[k + 1]),
            decreases rules@.len() - j,
        {
            let rule = &rules[j];
            apply_rule_in(directory, rule.directory.as_slice(), 0, rule, item, policy);
            proof {
                let previous = run;
                run = run.push(directory.entries@);
                assert forall|k: int| 0 <= k < j + 1 implies rule_applied_at(rules@[k], *item, policy.naming, policy.conflict,
                    texts(rules@[k].directory@), 0, #[trigger] run[k], run[k + 1]) by {
                    if k < j {
                        assert(run[k] == previous[k]);
                        assert(run[k + 1] == previous[k + 1]);
                    }
                }
            }
            j = j + 1;
        }
        proof {
            assert(rules_applied_at(rules@, *item, policy.naming, policy.conflict, texts(parents@), depth as int,
                before, directory.entries@));
        }
        return;
    }
    let index = ensure_child(directory, parents[depth].as_str(), policy);
    let ghost root1 = directory.entries@;
    let mut taken = PlanEntry::Directory(PlanDirectory::new("", Vec::new()));
    std::mem::swap(&mut taken, &mut directory.entries[index]);
    match taken {
        PlanEntry::Directory(mut child) => {
            let ghost inner = child.entries@;
            apply_rules_at(&mut child, parents, depth + 1, rules, item, policy);
            directory.entries.set(index, PlanEntry::Directory(child));
            proof {
                let after = directory.entries@;
                assert(texts(parents@)[depth as int] == parents@[depth as int]@);
                assert(dir_replaced(root1, index as int, inner, child.entries@, after));
                assert(rules_applied_at(rules@, *item, policy.naming, policy.conflict, texts(parents@), depth as int, before, after));
            }
        },
        other => {
            proof {
                assert(false);
            }
            directory.entries.set(index, other);
        },
    }
}

/// Compiles into platform directories holding one directory per game; loose bytes and
/// text go under the directories their ids name.
fn compile_grouped<N: NamingPolicy, F: FormattingPolicy, C: ConflictPolicy>(
    spec: &PresentationSpec,
    content: &[NormalizedContent],
    policy: &PolicySet<N, F, C>,
) -> (r: PresentationPlan)
    ensures
        exists|states: Seq<Seq<PlanEntry>>| grouped_run(spec.files@, content@, policy.naming, policy.formatting, policy.conflict, states)
            && #[trigger] states.last() == r.entries@,
{
    let mut root = PlanDirectory::new("", Vec::new());
    let ghost mut states: Seq<Seq<PlanEntry>> = seq![root.entries@];
    let mut i: usize = 0;
    while i < content.len()
        invariant
            i <= content@.len(),
            states.len() == i + 1,
            states[0] == Seq::<PlanEntry>::empty(),
            states.last() == root.entries@,
            forall|k: int| 0 <= k < i ==> grouped_item_compiled(spec.files@, #[trigger] content@[k], policy.naming, policy.formatting,
                policy.conflict, states[k], states[k + 1]),
        decreases content@.len() - i,
    {
        let item = &content[i];
        let ghost before = root.entries@;
        match item {
            NormalizedContent::Game(game) => {
                let platform_raw = policy.naming.platform_name(&game.platform);
                let platform_name = policy.format_name(platform_raw.as_str());
                let game_raw = policy.naming.game_name(game);
                let game_dir_name = policy.format_name(game_raw.as_str());
                let index = ensure_child(&mut root, platform_name.as_str(), policy);
                let ghost root1 = root.entries@;
                let mut taken = PlanEntry::Directory(PlanDirectory::new("", Vec::new()));
                std::mem::swap(&mut taken, &mut root.entries[index]);
                match taken {
                    PlanEntry::Directory(mut platform_dir) => {
                        let ghost inner = platform_dir.entries@;
                        let g = ensure_distinct_child(&mut platform_dir, game_dir_name.as_str(), policy);
                        let ghost mid = platform_dir.entries@;
                        proof {
                            lemma_first_dir(mid, policy.conflict.resolved(game_dir_name@, entry_names(inner)));
                        }
                        let mut game_entry = PlanEntry::Directory(PlanDirectory::new("", Vec::new()));
                        std::mem::swap(&mut game_entry, &mut platform_dir.entries[g]);
                        match game_entry {
                            PlanEntry::Directory(mut game_dir) => {
                                let ghost game_entries = game_dir.entries@;
                                let no_parents: Vec<String> = Vec::new();
                                apply_rules_at(&mut game_dir, no_parents.as_slice(), 0, spec.files.as_slice(), item, policy);
                                platform_dir.entries.set(g, PlanEntry::Directory(game_dir));
                                proof {
                                    assert(texts(no_parents@) =~= Seq::<Seq<char>>::empty());
                                    assert(dir_replaced(mid, g as int, game_entries, game_dir.entries@, platform_dir.entries@));
                                }
                            },
                            other => {
                                proof {
                                    assert(false);
                                }
                                platform_dir.entries.set(g, other);
                            },
                        }
                        root.entries.set(index, PlanEntry::Directory(platform_dir));
                        proof {
                            assert(dir_replaced(root1, index as int, inner, platform_dir.entries@, root.entries@));
                            assert(grouped_item_compiled(spec.files@, *item, policy.naming, policy.formatting, policy.conflict,
                                before, root.entries@));
                        }
                    },
                    other => {
                        proof {
                            assert(false);
                        }
                        root.entries.set(index, other);
                    },
                }
            },
            NormalizedContent::Bytes(_) | NormalizedContent::Text(_) => {
                let id = item.id().to_string();
                let (parents, _) = split_parent_dirs(id.as_str());
                apply_rules_at(&mut root, parents.as_slice(), 0, spec.files.as_slice(), item, policy);
            },
        }
        proof {
            let previous = states;
            states = states.push(root.entries@);
            assert forall|k: int| 0 <= k < i + 1 implies grouped_item_compiled(spec.files@, #[trigger] content@[k], policy.naming,
                policy.formatting, policy.conflict, states[k], states[k + 1]) by {
                if k < i {
                    assert(states[k] == previous[k]);
                    assert(states[k + 1] == previous[k + 1]);
                }
            }
        }
        i = i + 1;
    }
    PresentationPlan::new(root.entries)
}

/// Whether `entries` is what the flat layout gives for these rules and items: the tree a
/// flat run of every rule over every item ends with.
pub open spec fn flat_outcome<N: NamingPolicy, C: ConflictPolicy>(
    rules: Seq<FileRuleSpec>,
    items: Seq<NormalizedContent>,
    naming: N,
    conflict: C,
    entries: Seq<PlanEntry>,
) -> bool {
    exists|runs: Seq<Seq<Seq<PlanEntry>>>| flat_run(rules, items, naming, conflict, runs) && #[trigger] run_result(runs) == entries
}

/// Whether `entries` is what the literal-root layout gives: one directory named `name`
/// holding what the flat layout gives.
pub open spec fn literal_root_outcome<N: NamingPolicy, C: ConflictPolicy>(
    name: Seq<char>,
    rules: Seq<FileRuleSpec>,
    items: Seq<NormalizedContent>,
    naming: N,
    conflict: C,
    entries: Seq<PlanEntry>,
) -> bool {
    &&& entries.len() == 1
    &&& entries[0] matches PlanEntry::Directory(d) && d.name@ == name && flat_outcome(rules, items, naming, conflict, d.entries@)
}

/// The literal-root layout is the flat layout inside one directory: a single directory
/// named `name` is a literal-root result exactly when its entries are a flat result for
/// the same rules and items.
pub proof fn lemma_literal_root_is_flat_in_one_directory<N: NamingPolicy, C: ConflictPolicy>(
    name: Seq<char>,
    rules: Seq<FileRuleSpec>,
    items: Seq<NormalizedContent>,
    naming: N,
    conflict: C,
    root: PlanDirectory,
)
    requires
        root.name@ == name,
    ensures
        literal_root_outcome(name, rules, items, naming, conflict, seq![PlanEntry::Directory(root)])
            <==> flat_outcome(rules, items, naming, conflict, root.entries@),
{
}

/// Compiles a declarative spec for the given content into a plan: flat, grouped by
/// platform and game, or flat under one named root directory.
pub fn compile_presentation_spec<N: NamingPolicy, F: FormattingPolicy, C: ConflictPolicy>(
    spec: &PresentationSpec,
    content: &[NormalizedContent],
    policy: &PolicySet<N, F, C>,
) -> (r: PresentationPlan)
    ensures
        spec.layout is Flat ==> flat_outcome(spec.files@, content@, policy.naming, policy.conflict, r.entries@),
        spec.layout is GroupedByPlatformAndGame ==> exists|states: Seq<Seq<PlanEntry>>|
            grouped_run(spec.files@, content@, policy.naming, policy.formatting, policy.conflict, states)
            && #[trigger] states.last() == r.entries@,
        spec.layout matches LayoutSpec::LiteralRoot(name) ==> literal_root_outcome(name@, spec.files@, content@,
            policy.naming, policy.conflict, r.entries@),
{
    match &spec.layout {
        LayoutSpec::Flat => compile_flat(spec, content, policy),
        LayoutSpec::GroupedByPlatformAndGame => compile_grouped(spec, content, policy),
        LayoutSpec::LiteralRoot(name) => {
            let flat = compile_flat(spec, content, policy);
            let mut entries: Vec<PlanEntry> = Vec::new();
            entries.push(PlanEntry::Directory(PlanDirectory::new(name.as_str(), flat.entries)));
            PresentationPlan::new(entries)
        },
    }
}

} // verus!
