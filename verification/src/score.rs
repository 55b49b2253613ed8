//! Consensus scores and their classification.
//!
//! A consensus score is a crowd-submitted cyclability rating of a way. The
//! store keeps it as a nullable number where -1 means "no data yet", 0 means
//! "closed", and a value in (0, 1] rates quality. Here the unit interval is
//! scaled to thousandths, so a rated score lies in 1..=1000.

use vstd::prelude::*;

verus! {

/// The effective divisor, in thousandths, of an unknown score.
pub const SCORE_UNKNOWN_EFFECTIVE: u64 = 1000;

/// The effective divisor, in thousandths, of a closed way: near zero, so a
/// closed way is proportionally very expensive without the cost ever
/// becoming non-finite.
pub const SCORE_CLOSED_EFFECTIVE: u64 = 10;

/// A consensus score as the cost model consumes it.
#[derive(Clone, Copy, Debug, PartialEq, Eq, Structural)]
pub enum ConsensusScore {
    /// No rating was ever submitted (the store's -1, or a missing row).
    Unknown,
    /// Rated closed (the store's 0).
    Closed,
    /// Rated quality, in thousandths of the unit interval: 1..=1000.
    Rated(u32),
}

impl ConsensusScore {
    /// A rated score carries a value in 1..=1000.
    pub open spec fn wf(self) -> bool {
        match self {
            ConsensusScore::Rated(s) => 1 <= s <= 1000,
            _ => true,
        }
    }

    /// The divisor the cost model applies: 1.0 for an unknown score, near
    /// zero for a closed way, else the raw score.
    pub open spec fn spec_effective(self) -> int {
        match self {
            ConsensusScore::Unknown => SCORE_UNKNOWN_EFFECTIVE as int,
            ConsensusScore::Closed => SCORE_CLOSED_EFFECTIVE as int,
            ConsensusScore::Rated(s) => s as int,
        }
    }

    /// Computes `spec_effective`.
    pub fn effective(self) -> (e: u64)
        requires
            self.wf(),
        ensures
            e == self.spec_effective(),
            1 <= e <= SCORE_UNKNOWN_EFFECTIVE,
    {
        match self {
            ConsensusScore::Unknown => SCORE_UNKNOWN_EFFECTIVE,
            ConsensusScore::Closed => SCORE_CLOSED_EFFECTIVE,
            ConsensusScore::Rated(s) => s as u64,
        }
    }

    /// Builds a score from the store's convention: negative means unknown,
    /// zero means closed, and a positive rating is clamped to 1000.
    pub fn from_permille(raw: i64) -> (s: ConsensusScore)
        ensures
            s.wf(),
            raw < 0 ==> s == ConsensusScore::Unknown,
            raw == 0 ==> s == ConsensusScore::Closed,
            0 < raw <= 1000 ==> s == ConsensusScore::Rated(raw as u32),
            raw > 1000 ==> s == ConsensusScore::Rated(1000u32),
    {
        if raw < 0 {
            ConsensusScore::Unknown
        } else if raw == 0 {
            ConsensusScore::Closed
        } else if raw > 1000 {
            ConsensusScore::Rated(1000)
        } else {
            ConsensusScore::Rated(raw as u32)
        }
    }
}

/// How a consensus score reads on a selector: closed, dangerous, has
/// problems, or good.
#[derive(Clone, Copy, Debug, PartialEq, Eq, Structural)]
pub enum Category {
    Good,
    Problems,
    Dangerous,
    Closed,
}

/// A score together with the category it falls in, in thousandths.
#[derive(Clone, Copy, Debug, PartialEq, Eq, Structural)]
pub struct ScoreSelector {
    pub category: Category,
    pub score: u32,
}

/// The category of a score in thousandths: 0 is closed, up to 350 is
/// dangerous, up to 680 has problems, above is good.
pub open spec fn spec_category_of(score: u32) -> Category {
    if score == 0 {
        Category::Closed
    } else if score <= 350 {
        Category::Dangerous
    } else if score <= 680 {
        Category::Problems
    } else {
        Category::Good
    }
}

impl ScoreSelector {
    /// Classifies a score in thousandths.
    pub fn get_score_selector(score: u32) -> (s: ScoreSelector)
        ensures
            s.score == score,
            s.category == spec_category_of(score),
    {
        let category = if score == 0 {
            Category::Closed
        } else if score <= 350 {
            Category::Dangerous
        } else if score <= 680 {
            Category::Problems
        } else {
            Category::Good
        };
        ScoreSelector { score, category }
    }
}

} // verus!
