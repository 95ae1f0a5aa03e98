//! Presenters turn normalized content into a declarative presentation plan.
use vstd::prelude::*;

use crate::model::content::NormalizedContent;
use crate::output::plan::PresentationPlan;
use crate::policy::{ConflictPolicy, FormattingPolicy, NamingPolicy, PolicySet};

verus! {

/// Describes how normalized content is laid out for output: which artifacts exist and
/// where, without choosing encoders or materializing anything.
pub trait OutputPresenter {
    fn present<N: NamingPolicy, F: FormattingPolicy, C: ConflictPolicy>(
        &self,
        content: &[NormalizedContent],
        policy: &PolicySet<N, F, C>,
    ) -> PresentationPlan;
}

} // verus!
