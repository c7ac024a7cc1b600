//! Classification of the candidate-set size.

use vstd::prelude::*;

verus! {

/// Largest candidate total for which ranking everything in memory is viable.
pub const AFFORDABLE_LIMIT: usize = 500_000;

/// How large the candidate set of a session is.
#[derive(Clone, Copy, Debug, PartialEq, Eq, Structural)]
pub enum Scale {
    /// The forerunner has not reported yet.
    Unknown,
    /// Small enough to rank everything in memory; carries the total.
    Affordable(usize),
    /// Too large for exhaustive ranking.
    Large,
}

/// The scale that a candidate total stands for.
pub open spec fn scale_of(total: nat) -> Scale {
    if total > AFFORDABLE_LIMIT {
        Scale::Large
    } else {
        Scale::Affordable(total as usize)
    }
}

impl Scale {
    /// Classifies a candidate total.
    pub fn classify(total: usize) -> (scale: Scale)
        ensures
            scale == scale_of(total as nat),
    {
        if total > AFFORDABLE_LIMIT {
            Scale::Large
        } else {
            Scale::Affordable(total)
        }
    }
}

} // verus!
