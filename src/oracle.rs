//! The compatibility oracle's contract: what the engine accepts from it.
//!
//! Scores are held in thousandths (0 ..= 1000 for 0.0 ..= 1.0).
use vstd::prelude::*;

verus! {

/// The score that stands for 1.0.
pub const SCORE_SCALE: u32 = 1000;

/// The least score at which a missing recommendation counts as given (0.65).
pub const RECOMMEND_THRESHOLD: u32 = 650;

/// What the oracle produced, each part possibly missing; the score in
/// thousandths and not yet clamped.
#[derive(Debug, Clone)]
pub struct OracleReading {
    pub score: Option<i64>,
    pub rationale: Option<String>,
    pub recommend: Option<bool>,
}

/// A complete assessment of one candidate: score in thousandths, free-text
/// rationale and recommendation flag.
#[derive(Debug, Clone)]
pub struct Verdict {
    pub score: u32,
    pub rationale: String,
    pub recommend: bool,
}

impl Verdict {
    /// The score lies in 0 ..= 1000.
    pub open spec fn wf(&self) -> bool {
        self.score <= SCORE_SCALE
    }
}

/// `raw` brought into 0 ..= 1000.
pub open spec fn clamp_score(raw: int) -> int {
    if raw < 0 {
        0
    } else if raw > SCORE_SCALE {
        SCORE_SCALE as int
    } else {
        raw
    }
}

/// The rationale that stands in for a missing one.
pub open spec fn default_rationale() -> Seq<char> {
    "No notes"@
}

/// Completes an oracle reading: a missing score counts as 0, the score is
/// clamped to 0 ..= 1000, a missing rationale becomes "No notes", and a
/// missing recommendation is derived as `score >= 650`.
pub fn normalize_verdict(reading: OracleReading) -> (v: Verdict)
    ensures
        v.wf(),
        v.score == clamp_score(
            match reading.score {
                Some(s) => s as int,
                None => 0,
            },
        ),
        v.rationale@ == (match reading.rationale {
            Some(r) => r@,
            None => default_rationale(),
        }),
        v.recommend == (match reading.recommend {
            Some(b) => b,
            None => v.score >= RECOMMEND_THRESHOLD,
        }),
{
    let raw: i64 = match reading.score {
        Some(s) => s,
        None => 0,
    };
    let score: u32 = if raw < 0 {
        0
    } else if raw > SCORE_SCALE as i64 {
        SCORE_SCALE
    } else {
        raw as u32
    };
    let rationale = match reading.rationale {
        Some(r) => r,
        None => String::from_str("No notes"),
    };
    let recommend = match reading.recommend {
        Some(b) => b,
        None => score >= RECOMMEND_THRESHOLD,
    };
    Verdict { score, rationale, recommend }
}

} // verus!
