//! Capability resolution: which encoder capability materializes an artifact.
use vstd::prelude::*;

use crate::output::capabilities::{
    CapabilityFeature, CapabilityRequirements, ContentType, EncoderCapability, Format,
};
use crate::output::plan::{ArtifactRequest, PlannedArtifactKind};
use crate::text::{lemma_seq_lt_asymmetric, lemma_seq_lt_irreflexive, lemma_seq_lt_total,
    lemma_seq_lt_transitive, seq_lt, str_lt};

verus! {

#[derive(Debug, PartialEq, Eq)]
pub enum RejectionReason {
    ContentTypeMismatch { required: ContentType, actual: ContentType },
    FormatMismatch { required: Format, supported: Vec<Format> },
    MissingRequiredFeature(CapabilityFeature),
    ForbiddenFeaturePresent(CapabilityFeature),
    MultiSourceNotSupported,
}

/// A rejection reason with its list of formats as a sequence.
pub enum RejectionView {
    ContentTypeMismatch { required: ContentType, actual: ContentType },
    FormatMismatch { required: Format, supported: Seq<Format> },
    MissingRequiredFeature(CapabilityFeature),
    ForbiddenFeaturePresent(CapabilityFeature),
    MultiSourceNotSupported,
}

impl View for RejectionReason {
    type V = RejectionView;

    open spec fn view(&self) -> RejectionView {
        match self {
            RejectionReason::ContentTypeMismatch { required, actual } => RejectionView::ContentTypeMismatch {
                required: *required,
                actual: *actual,
            },
            RejectionReason::FormatMismatch { required, supported } => RejectionView::FormatMismatch {
                required: *required,
                supported: supported@,
            },
            RejectionReason::MissingRequiredFeature(f) => RejectionView::MissingRequiredFeature(*f),
            RejectionReason::ForbiddenFeaturePresent(f) => RejectionView::ForbiddenFeaturePresent(*f),
            RejectionReason::MultiSourceNotSupported => RejectionView::MultiSourceNotSupported,
        }
    }
}

pub open spec fn reasons_view(v: Seq<RejectionReason>) -> Seq<RejectionView> {
    v.map_values(|r: RejectionReason| r@)
}

proof fn lemma_reasons_view_push(v: Seq<RejectionReason>, x: RejectionReason)
    ensures
        reasons_view(v.push(x)) == reasons_view(v).push(x@),
        reasons_view(v).len() == v.len(),
{
    assert(reasons_view(v.push(x)) =~= reasons_view(v).push(x@));
}

/// One `MissingRequiredFeature` per required feature, in order, that `have` lacks.
pub open spec fn spec_missing(required: Seq<CapabilityFeature>, have: Seq<CapabilityFeature>) -> Seq<RejectionView>
    decreases required.len(),
{
    if required.len() == 0 {
        Seq::empty()
    } else {
        let rest = spec_missing(required.drop_last(), have);
        if have.contains(required.last()) {
            rest
        } else {
            rest.push(RejectionView::MissingRequiredFeature(required.last()))
        }
    }
}

/// One `ForbiddenFeaturePresent` per forbidden feature, in order, that `have` holds.
pub open spec fn spec_forbidden(forbidden: Seq<CapabilityFeature>, have: Seq<CapabilityFeature>) -> Seq<RejectionView>
    decreases forbidden.len(),
{
    if forbidden.len() == 0 {
        Seq::empty()
    } else {
        let rest = spec_forbidden(forbidden.drop_last(), have);
        if have.contains(forbidden.last()) {
            rest.push(RejectionView::ForbiddenFeaturePresent(forbidden.last()))
        } else {
            rest
        }
    }
}

/// Every reason why `capability` cannot materialize `request`, in the order
/// content type, format, missing features, forbidden features, multi-source.
pub open spec fn spec_rejections(request: ArtifactRequest, capability: EncoderCapability) -> Seq<RejectionView> {
    let requirements = request.requirements;
    let content = if capability.content_type != requirements.content_type {
        seq![RejectionView::ContentTypeMismatch { required: requirements.content_type, actual: capability.content_type }]
    } else {
        Seq::empty()
    };
    let format = match requirements.format {
        Some(f) => if !capability.formats@.contains(f) {
            seq![RejectionView::FormatMismatch { required: f, supported: capability.formats@ }]
        } else {
            Seq::empty()
        },
        None => Seq::empty(),
    };
    let multi = match request.kind {
        PlannedArtifactKind::SourceBacked(s) => if s.inputs@.len() > 1 && !capability.features@.contains(CapabilityFeature::MultiSource) {
            seq![RejectionView::MultiSourceNotSupported]
        } else {
            Seq::empty()
        },
        _ => Seq::empty(),
    };
    content + format + spec_missing(requirements.required_features@, capability.features@)
        + spec_forbidden(requirements.forbidden_features@, capability.features@) + multi
}

/// How many of `preferred` are in `have`.
pub open spec fn spec_matched(preferred: Seq<CapabilityFeature>, have: Seq<CapabilityFeature>) -> nat
    decreases preferred.len(),
{
    if preferred.len() == 0 {
        0
    } else {
        spec_matched(preferred.drop_last(), have) + if have.contains(preferred.last()) { 1nat } else { 0nat }
    }
}

proof fn lemma_matched_bound(preferred: Seq<CapabilityFeature>, have: Seq<CapabilityFeature>)
    ensures
        spec_matched(preferred, have) <= preferred.len(),
    decreases preferred.len(),
{
    if preferred.len() > 0 {
        lemma_matched_bound(preferred.drop_last(), have);
    }
}

#[derive(Debug, Clone, Copy, PartialEq, Eq, Structural)]
pub struct ResolutionScore {
    pub matched_preferred_features: usize,
    pub capability_priority: u32,
    pub capability_feature_count: usize,
}

impl ResolutionScore {
    pub fn new(matched_preferred_features: usize, capability_priority: u32, capability_feature_count: usize) -> (r: Self)
        ensures
            r.matched_preferred_features == matched_preferred_features,
            r.capability_priority == capability_priority,
            r.capability_feature_count == capability_feature_count,
    {
        ResolutionScore { matched_preferred_features, capability_priority, capability_feature_count }
    }
}

/// The score of a capability that meets `requirements`.
pub open spec fn spec_score(requirements: CapabilityRequirements, capability: EncoderCapability) -> ResolutionScore {
    ResolutionScore {
        matched_preferred_features: spec_matched(requirements.preferred_features@, capability.features@) as usize,
        capability_priority: capability.priority,
        capability_feature_count: capability.features@.len() as usize,
    }
}

#[derive(Debug, PartialEq, Eq)]
pub struct CandidateDiagnostic {
    pub plugin_id: String,
    pub capability_id: String,
    pub is_accepted: bool,
    pub score: Option<ResolutionScore>,
    pub rejection_reasons: Vec<RejectionReason>,
}

#[derive(Debug, PartialEq, Eq)]
pub struct ResolutionDiagnostic {
    pub artifact_id: String,
    pub selected_capability_id: Option<String>,
    pub candidates: Vec<CandidateDiagnostic>,
}

#[derive(Debug, PartialEq, Eq)]
pub struct ResolvedCapability {
    pub plugin_id: String,
    pub capability_id: String,
    pub score: ResolutionScore,
}

#[derive(Debug, PartialEq, Eq)]
pub enum ResolutionResult {
    Resolved { selected: ResolvedCapability, diagnostics: ResolutionDiagnostic },
    Unresolved { diagnostics: ResolutionDiagnostic },
}

/// The diagnostic entry for capability `c`.
pub open spec fn candidate_matches(d: CandidateDiagnostic, request: ArtifactRequest, c: EncoderCapability) -> bool {
    let reasons = spec_rejections(request, c);
    &&& d.plugin_id@ == c.plugin_id@
    &&& d.capability_id@ == c.capability_id@
    &&& d.is_accepted == (reasons.len() == 0)
    &&& d.score == (if reasons.len() == 0 { Some(spec_score(request.requirements, c)) } else { None })
    &&& reasons_view(d.rejection_reasons@) == reasons
}

/// Whether capability `c` can materialize `request`.
pub open spec fn accepts(request: ArtifactRequest, c: EncoderCapability) -> bool {
    spec_rejections(request, c).len() == 0
}

/// The ranking of accepted capabilities: more matched preferred features, then
/// higher priority, then fewer features, then plugin id, then capability id.
pub open spec fn ranks_before(request: ArtifactRequest, a: EncoderCapability, b: EncoderCapability) -> bool {
    let sa = spec_score(request.requirements, a);
    let sb = spec_score(request.requirements, b);
    ||| sa.matched_preferred_features > sb.matched_preferred_features
    ||| (sa.matched_preferred_features == sb.matched_preferred_features && sa.capability_priority > sb.capability_priority)
    ||| (sa.matched_preferred_features == sb.matched_preferred_features && sa.capability_priority == sb.capability_priority
        && sa.capability_feature_count < sb.capability_feature_count)
    ||| (sa.matched_preferred_features == sb.matched_preferred_features && sa.capability_priority == sb.capability_priority
        && sa.capability_feature_count == sb.capability_feature_count && seq_lt(a.plugin_id@, b.plugin_id@))
    ||| (sa.matched_preferred_features == sb.matched_preferred_features && sa.capability_priority == sb.capability_priority
        && sa.capability_feature_count == sb.capability_feature_count && a.plugin_id@ == b.plugin_id@
        && seq_lt(a.capability_id@, b.capability_id@))
}

/// Two capabilities tie when neither ranks before the other.
pub open spec fn ties(request: ArtifactRequest, a: EncoderCapability, b: EncoderCapability) -> bool {
    let sa = spec_score(request.requirements, a);
    let sb = spec_score(request.requirements, b);
    &&& sa == sb
    &&& a.plugin_id@ == b.plugin_id@
    &&& a.capability_id@ == b.capability_id@
}

pub proof fn lemma_ranks_before_transitive(request: ArtifactRequest, a: EncoderCapability, b: EncoderCapability, c: EncoderCapability)
    requires
        ranks_before(request, a, b),
        ranks_before(request, b, c),
    ensures
        ranks_before(request, a, c),
{
    if seq_lt(a.plugin_id@, b.plugin_id@) && seq_lt(b.plugin_id@, c.plugin_id@) {
        lemma_seq_lt_transitive(a.plugin_id@, b.plugin_id@, c.plugin_id@);
    }
    if seq_lt(a.capability_id@, b.capability_id@) && seq_lt(b.capability_id@, c.capability_id@) {
        lemma_seq_lt_transitive(a.capability_id@, b.capability_id@, c.capability_id@);
    }
}

pub proof fn lemma_ranks_before_total(request: ArtifactRequest, a: EncoderCapability, b: EncoderCapability)
    ensures
        ranks_before(request, a, b) || ranks_before(request, b, a) || ties(request, a, b),
{
    lemma_seq_lt_total(a.plugin_id@, b.plugin_id@);
    lemma_seq_lt_total(a.capability_id@, b.capability_id@);
}

pub proof fn lemma_ranks_before_irreflexive(request: ArtifactRequest, a: EncoderCapability, b: EncoderCapability)
    requires
        ties(request, a, b),
    ensures
        !ranks_before(request, a, b),
{
    lemma_seq_lt_irreflexive(a.plugin_id@);
    lemma_seq_lt_irreflexive(a.capability_id@);
}

pub proof fn lemma_ranks_before_asymmetric(request: ArtifactRequest, a: EncoderCapability, b: EncoderCapability)
    requires
        ranks_before(request, a, b),
    ensures
        !ranks_before(request, b, a),
{
    if seq_lt(a.plugin_id@, b.plugin_id@) {
        lemma_seq_lt_asymmetric(a.plugin_id@, b.plugin_id@);
    }
    if seq_lt(a.capability_id@, b.capability_id@) {
        lemma_seq_lt_asymmetric(a.capability_id@, b.capability_id@);
    }
    lemma_seq_lt_irreflexive(a.plugin_id@);
}

/// More matched preferred features rank first, whatever the priorities and the rest:
/// matched preferred features are the first key of the ranking.
pub proof fn lemma_more_matched_ranks_first(request: ArtifactRequest, a: EncoderCapability, b: EncoderCapability)
    requires
        spec_matched(request.requirements.preferred_features@, a.features@)
            > spec_matched(request.requirements.preferred_features@, b.features@),
    ensures
        ranks_before(request, a, b),
        !ranks_before(request, b, a),
{
    request.requirements.preferred_features.lemma_len_fits();
    lemma_matched_bound(request.requirements.preferred_features@, a.features@);
    lemma_matched_bound(request.requirements.preferred_features@, b.features@);
}

/// With as many matched preferred features, a higher priority ranks first: priority is
/// the second key of the ranking.
pub proof fn lemma_priority_breaks_ties(request: ArtifactRequest, a: EncoderCapability, b: EncoderCapability)
    requires
        spec_matched(request.requirements.preferred_features@, a.features@)
            == spec_matched(request.requirements.preferred_features@, b.features@),
        a.priority > b.priority,
    ensures
        ranks_before(request, a, b),
        !ranks_before(request, b, a),
{
    request.requirements.preferred_features.lemma_len_fits();
    lemma_matched_bound(request.requirements.preferred_features@, a.features@);
}

/// The matched preferred features are those of the preferred ones the capability has:
/// their count is the length of the preferred features kept when filtered by membership.
pub proof fn lemma_matched_counts_present(preferred: Seq<CapabilityFeature>, have: Seq<CapabilityFeature>)
    ensures
        spec_matched(preferred, have) == preferred.filter(|x: CapabilityFeature| have.contains(x)).len(),
    decreases preferred.len(),
{
    reveal(Seq::filter);
    if preferred.len() > 0 {
        lemma_matched_counts_present(preferred.drop_last(), have);
    }
}

/// With as many matched preferred features and the same priority, fewer features rank
/// first: the feature count is the third key of the ranking.
pub proof fn lemma_fewer_features_rank_first(request: ArtifactRequest, a: EncoderCapability, b: EncoderCapability)
    requires
        spec_matched(request.requirements.preferred_features@, a.features@)
            == spec_matched(request.requirements.preferred_features@, b.features@),
        a.priority == b.priority,
        a.features@.len() < b.features@.len(),
    ensures
        ranks_before(request, a, b),
        !ranks_before(request, b, a),
{
    request.requirements.preferred_features.lemma_len_fits();
    a.features.lemma_len_fits();
    b.features.lemma_len_fits();
    lemma_matched_bound(request.requirements.preferred_features@, a.features@);
}

/// With the same score, the smaller plugin id ranks first, and with the same plugin id
/// too, the smaller capability id: the ids are the last keys of the ranking.
pub proof fn lemma_ids_break_ties(request: ArtifactRequest, a: EncoderCapability, b: EncoderCapability)
    requires
        spec_matched(request.requirements.preferred_features@, a.features@)
            == spec_matched(request.requirements.preferred_features@, b.features@),
        a.priority == b.priority,
        a.features@.len() == b.features@.len(),
        seq_lt(a.plugin_id@, b.plugin_id@) || (a.plugin_id@ == b.plugin_id@ && seq_lt(a.capability_id@, b.capability_id@)),
    ensures
        ranks_before(request, a, b),
        !ranks_before(request, b, a),
{
    request.requirements.preferred_features.lemma_len_fits();
    a.features.lemma_len_fits();
    b.features.lemma_len_fits();
    lemma_matched_bound(request.requirements.preferred_features@, a.features@);
    if seq_lt(a.plugin_id@, b.plugin_id@) {
        lemma_seq_lt_asymmetric(a.plugin_id@, b.plugin_id@);
        lemma_seq_lt_irreflexive(a.plugin_id@);
    } else {
        lemma_seq_lt_asymmetric(a.capability_id@, b.capability_id@);
        lemma_seq_lt_irreflexive(a.plugin_id@);
    }
}

/// The first best capability matches the most preferred features among the accepted
/// ones, and among those that match as many, has the highest priority.
pub proof fn lemma_first_best_is_maximal(request: ArtifactRequest, caps: Seq<EncoderCapability>, k: int)
    requires
        is_first_best(request, caps, k),
    ensures
        forall|j: int| 0 <= j < caps.len() && accepts(request, #[trigger] caps[j]) ==> {
            let mj = spec_matched(request.requirements.preferred_features@, caps[j].features@);
            let mk = spec_matched(request.requirements.preferred_features@, caps[k].features@);
            &&& mj <= mk
            &&& mj == mk ==> caps[j].priority <= caps[k].priority
        },
{
    assert forall|j: int| 0 <= j < caps.len() && accepts(request, #[trigger] caps[j]) implies {
        let mj = spec_matched(request.requirements.preferred_features@, caps[j].features@);
        let mk = spec_matched(request.requirements.preferred_features@, caps[k].features@);
        &&& mj <= mk
        &&& mj == mk ==> caps[j].priority <= caps[k].priority
    } by {
        assert(!ranks_before(request, caps[j], caps[k]));
        let mj = spec_matched(request.requirements.preferred_features@, caps[j].features@);
        let mk = spec_matched(request.requirements.preferred_features@, caps[k].features@);
        if mj > mk {
            lemma_more_matched_ranks_first(request, caps[j], caps[k]);
        }
        if mj == mk && caps[j].priority > caps[k].priority {
            lemma_priority_breaks_ties(request, caps[j], caps[k]);
        }
    }
}

/// `k` is the capability a stable sort by rank would put first among the
/// accepted ones: nothing accepted ranks before it, and everything accepted
/// that comes earlier in the list ranks strictly after it.
pub open spec fn is_first_best(request: ArtifactRequest, caps: Seq<EncoderCapability>, k: int) -> bool {
    &&& 0 <= k < caps.len()
    &&& accepts(request, caps[k])
    &&& forall|j: int| 0 <= j < caps.len() && accepts(request, #[trigger] caps[j]) ==> !ranks_before(request, caps[j], caps[k])
    &&& forall|j: int| 0 <= j < k && accepts(request, #[trigger] caps[j]) ==> ranks_before(request, caps[k], caps[j])
}

#[derive(Debug, Default)]
pub struct CapabilityResolver;

impl CapabilityResolver {
    /// Ranks every capability against the request and selects the best accepted one.
    pub fn resolve(&self, request: &ArtifactRequest, capabilities: &[EncoderCapability]) -> (r: ResolutionResult)
        ensures
            ({
                let diagnostics = match r {
                    ResolutionResult::Resolved { diagnostics, .. } => diagnostics,
                    ResolutionResult::Unresolved { diagnostics } => diagnostics,
                };
                &&& diagnostics.artifact_id@ == request.id.0@
                &&& diagnostics.candidates@.len() == capabilities@.len()
                &&& forall|i: int| 0 <= i < capabilities@.len() ==> candidate_matches(#[trigger] diagnostics.candidates@[i], *request, capabilities@[i])
            }),
            (r is Unresolved) == (forall|i: int| 0 <= i < capabilities@.len() ==> !accepts(*request, #[trigger] capabilities@[i])),
            r matches ResolutionResult::Unresolved { diagnostics } ==> diagnostics.selected_capability_id is None,
            r matches ResolutionResult::Resolved { selected, diagnostics } ==> exists|k: int| {
                &&& is_first_best(*request, capabilities@, k)
                &&& selected.plugin_id@ == capabilities@[k].plugin_id@
                &&& selected.capability_id@ == capabilities@[k].capability_id@
                &&& selected.score == spec_score(request.requirements, capabilities@[k])
                &&& diagnostics.selected_capability_id matches Some(id) && id@ == capabilities@[k].capability_id@
            },
            r matches ResolutionResult::Resolved { selected, .. } ==> forall|i: int| 0 <= i < capabilities@.len()
                && accepts(*request, #[trigger] capabilities@[i]) ==> {
                let m = spec_matched(request.requirements.preferred_features@, capabilities@[i].features@);
                &&& m <= selected.score.matched_preferred_features
                &&& m == selected.score.matched_preferred_features ==> capabilities@[i].priority <= selected.score.capability_priority
            },
    {
        let mut diagnostics: Vec<CandidateDiagnostic> = Vec::new();
        let mut best: Option<usize> = None;
        let mut i: usize = 0;
        while i < capabilities.len()
            invariant
                i <= capabilities@.len(),
                diagnostics@.len() == i,
                forall|j: int| 0 <= j < i ==> candidate_matches(#[trigger] diagnostics@[j], *request, capabilities@[j]),
                best is None ==> forall|j: int| 0 <= j < i ==> !accepts(*request, #[trigger] capabilities@[j]),
                best matches Some(k) ==> {
                    &&& k < i
                    &&& accepts(*request, capabilities@[k as int])
                    &&& forall|j: int| 0 <= j < i && accepts(*request, #[trigger] capabilities@[j]) ==> !ranks_before(
                        *request, capabilities@[j], capabilities@[k as int])
                    &&& forall|j: int| 0 <= j < k && accepts(*request, #[trigger] capabilities@[j]) ==> ranks_before(
                        *request, capabilities@[k as int], capabilities@[j])
                },
            decreases capabilities@.len() - i,
        {
            let capability = &capabilities[i];
            let rejection_reasons = self.rejection_reasons(request, capability);
            proof {
                assert(reasons_view(rejection_reasons@).len() == rejection_reasons@.len());
            }
            let is_accepted = rejection_reasons.len() == 0;
            if is_accepted {
                let score = self.score(&request.requirements, capability);
                diagnostics.push(CandidateDiagnostic {
                    plugin_id: capability.plugin_id.clone(),
                    capability_id: capability.capability_id.clone(),
                    is_accepted: true,
                    score: Some(score),
                    rejection_reasons: Vec::new(),
                });
                proof {
                    assert(reasons_view(Seq::<RejectionReason>::empty()) =~= Seq::<RejectionView>::empty());
                }
                let replace = match best {
                    None => true,
                    Some(k) => self.ranks_before(request, capability, &capabilities[k]),
                };
                if replace {
                    proof {
                        let ghost c = capabilities@[i as int];
                        if let Some(k) = best {
                            let ghost ck = capabilities@[k as int];
                            assert forall|j: int| 0 <= j < i + 1 && accepts(*request, #[trigger] capabilities@[j]) implies !ranks_before(
                                *request, capabilities@[j], c) by {
                                if j < i {
                                    lemma_ranks_before_total(*request, capabilities@[j], ck);
                                    if ranks_before(*request, capabilities@[j], c) {
                                        lemma_ranks_before_transitive(*request, capabilities@[j], c, ck);
                                    }
                                    if ties(*request, capabilities@[j], ck) && ranks_before(*request, capabilities@[j], c) {
                                        lemma_ranks_before_asymmetric(*request, c, ck);
                                    }
                                } else {
                                    lemma_ranks_before_irreflexive(*request, c, c);
                                }
                            }
                            assert forall|j: int| 0 <= j < i && accepts(*request, #[trigger] capabilities@[j]) implies ranks_before(
                                *request, c, capabilities@[j]) by {
                                if j == k {
                                } else if j < k {
                                    lemma_ranks_before_transitive(*request, c, ck, capabilities@[j]);
                                } else {
                                    lemma_ranks_before_total(*request, capabilities@[j], ck);
                                    if ranks_before(*request, ck, capabilities@[j]) {
                                        lemma_ranks_before_transitive(*request, c, ck, capabilities@[j]);
                                    }
                                }
                            }
                        } else {
                            lemma_ranks_before_irreflexive(*request, c, c);
                        }
                    }
                    best = Some(i);
                }
            } else {
                diagnostics.push(CandidateDiagnostic {
                    plugin_id: capability.plugin_id.clone(),
                    capability_id: capability.capability_id.clone(),
                    is_accepted: false,
                    score: None,
                    rejection_reasons,
                });
            }
            i = i + 1;
        }
        match best {
            None => ResolutionResult::Unresolved {
                diagnostics: ResolutionDiagnostic {
                    artifact_id: request.id.0.clone(),
                    selected_capability_id: None,
                    candidates: diagnostics,
                },
            },
            Some(k) => {
                let capability = &capabilities[k];
                let score = self.score(&request.requirements, capability);
                let selected = ResolvedCapability {
                    plugin_id: capability.plugin_id.clone(),
                    capability_id: capability.capability_id.clone(),
                    score,
                };
                let diagnostics = ResolutionDiagnostic {
                    artifact_id: request.id.0.clone(),
                    selected_capability_id: Some(capability.capability_id.clone()),
                    candidates: diagnostics,
                };
                assert(is_first_best(*request, capabilities@, k as int));
                proof {
                    lemma_first_best_is_maximal(*request, capabilities@, k as int);
                    request.requirements.preferred_features.lemma_len_fits();
                    lemma_matched_bound(request.requirements.preferred_features@, capabilities@[k as int].features@);
                }
                ResolutionResult::Resolved { selected, diagnostics }
            },
        }
    }

    fn ranks_before(&self, request: &ArtifactRequest, a: &EncoderCapability, b: &EncoderCapability) -> (r: bool)
        ensures
            r == ranks_before(*request, *a, *b),
    {
        let sa = self.score(&request.requirements, a);
        let sb = self.score(&request.requirements, b);
        if sa.matched_preferred_features != sb.matched_preferred_features {
            return sa.matched_preferred_features > sb.matched_preferred_features;
        }
        if sa.capability_priority != sb.capability_priority {
            return sa.capability_priority > sb.capability_priority;
        }
        if sa.capability_feature_count != sb.capability_feature_count {
            return sa.capability_feature_count < sb.capability_feature_count;
        }
        if str_lt(a.plugin_id.as_str(), b.plugin_id.as_str()) {
            return true;
        }
        if a.plugin_id != b.plugin_id {
            return false;
        }
        str_lt(a.capability_id.as_str(), b.capability_id.as_str())
    }

    fn rejection_reasons(&self, request: &ArtifactRequest, capability: &EncoderCapability) -> (r: Vec<RejectionReason>)
        ensures
            reasons_view(r@) == spec_rejections(*request, *capability),
    {
        let mut reasons: Vec<RejectionReason> = Vec::new();
        let requirements = &request.requirements;
        proof {
            assert(reasons_view(reasons@) =~= Seq::<RejectionView>::empty());
        }
        if capability.content_type != requirements.content_type {
            proof {
                lemma_reasons_view_push(reasons@, RejectionReason::ContentTypeMismatch {
                    required: requirements.content_type,
                    actual: capability.content_type,
                });
            }
            reasons.push(RejectionReason::ContentTypeMismatch {
                required: requirements.content_type,
                actual: capability.content_type,
            });
        }
        if let Some(format) = requirements.format {
            if !capability.formats.contains(&format) {
                let supported = capability.formats.to_vec();
                proof {
                    lemma_reasons_view_push(reasons@, RejectionReason::FormatMismatch { required: format, supported });
                }
                reasons.push(RejectionReason::FormatMismatch { required: format, supported });
            }
        }
        let ghost prefix = reasons_view(reasons@);
        let required = requirements.required_features.as_slice();
        let mut i: usize = 0;
        while i < required.len()
            invariant
                i <= required@.len(),
                required@ == requirements.required_features@,
                reasons_view(reasons@) == prefix + spec_missing(required@.take(i as int), capability.features@),
            decreases required@.len() - i,
        {
            assert(required@.take(i + 1).drop_last() =~= required@.take(i as int));
            if !capability.features.contains(&required[i]) {
                proof {
                    lemma_reasons_view_push(reasons@, RejectionReason::MissingRequiredFeature(required@[i as int]));
                }
                reasons.push(RejectionReason::MissingRequiredFeature(required[i]));
            }
            i = i + 1;
            assert(reasons_view(reasons@) =~= prefix + spec_missing(required@.take(i as int), capability.features@));
        }
        assert(required@.take(required@.len() as int) =~= required@);
        let ghost prefix2 = reasons_view(reasons@);
        let forbidden = requirements.forbidden_features.as_slice();
        let mut i: usize = 0;
        while i < forbidden.len()
            invariant
                i <= forbidden@.len(),
                forbidden@ == requirements.forbidden_features@,
                reasons_view(reasons@) == prefix2 + spec_forbidden(forbidden@.take(i as int), capability.features@),
            decreases forbidden@.len() - i,
        {
            assert(forbidden@.take(i + 1).drop_last() =~= forbidden@.take(i as int));
            if capability.features.contains(&forbidden[i]) {
                proof {
                    lemma_reasons_view_push(reasons@, RejectionReason::ForbiddenFeaturePresent(forbidden@[i as int]));
                }
                reasons.push(RejectionReason::ForbiddenFeaturePresent(forbidden[i]));
            }
            i = i + 1;
            assert(reasons_view(reasons@) =~= prefix2 + spec_forbidden(forbidden@.take(i as int), capability.features@));
        }
        assert(forbidden@.take(forbidden@.len() as int) =~= forbidden@);
        let ghost before_multi = reasons_view(reasons@);
        assert(before_multi == prefix2 + spec_forbidden(requirements.forbidden_features@, capability.features@));
        match &request.kind {
            PlannedArtifactKind::SourceBacked(source_artifact) => {
                if source_artifact.is_multi_source() && !capability.supports_multi_source() {
                    proof {
                        lemma_reasons_view_push(reasons@, RejectionReason::MultiSourceNotSupported);
                    }
                    reasons.push(RejectionReason::MultiSourceNotSupported);
                }
            },
            PlannedArtifactKind::Generated(_) => {},
            PlannedArtifactKind::ContentBacked(_) => {},
        }
        assert(reasons_view(reasons@) =~= spec_rejections(*request, *capability));
        reasons
    }

    fn score(&self, requirements: &CapabilityRequirements, capability: &EncoderCapability) -> (r: ResolutionScore)
        ensures
            r == spec_score(*requirements, *capability),
    {
        ResolutionScore::new(
            matched_preferred_features(requirements, capability),
            capability.priority,
            capability.features.len(),
        )
    }
}

fn matched_preferred_features(requirements: &CapabilityRequirements, capability: &EncoderCapability) -> (r: usize)
    ensures
        r == spec_matched(requirements.preferred_features@, capability.features@),
{
    let preferred = requirements.preferred_features.as_slice();
    let mut count: usize = 0;
    let mut i: usize = 0;
    while i < preferred.len()
        invariant
            i <= preferred@.len(),
            preferred@ == requirements.preferred_features@,
            count == spec_matched(preferred@.take(i as int), capability.features@),
            count <= i,
        decreases preferred@.len() - i,
    {
        assert(preferred@.take(i + 1).drop_last() =~= preferred@.take(i as int));
        if capability.features.contains(&preferred[i]) {
            count = count + 1;
        }
        i = i + 1;
    }
    assert(preferred@.take(preferred@.len() as int) =~= preferred@);
    count
}

} // verus!
