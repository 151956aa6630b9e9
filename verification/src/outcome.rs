//! The result of a score submission: acceptance, or a structured rejection
//! carrying the numeric context that produced it, so that a caller can render
//! a diagnostic message rather than an opaque failure.

use vstd::prelude::*;

verus! {

/// Score units accrued per second of play.
pub const SCORE_RATE: i64 = 60;

/// Seconds of jitter the plausibility check absorbs.
pub const TOLERANCE_SECONDS: i64 = 3;

/// Largest accepted gap between a submitted score and the score expected
/// from the elapsed time, in score units.
pub const TOLERANCE: i64 = SCORE_RATE * TOLERANCE_SECONDS;

/// Outcome of a score submission.
///
/// Exactly one variant applies to any submission; every rejection carries
/// the values that produced it.
#[derive(Clone, Copy, Debug, PartialEq, Eq, Structural)]
pub enum SubmitOutcome {
    /// The session was consumed and the entry ranked.
    Accepted,
    /// The session token was empty, or no session is stored under it.
    InvalidSession,
    /// The session had already been consumed by an accepted submission.
    SessionAlreadyUsed,
    /// The score is implausible for the time elapsed since the session
    /// started: it differs from `elapsed_seconds x 60` by more than the
    /// tolerance.
    ScoreTimeMismatch { elapsed_ms: u64, expected_score: i64, tolerance: i64, actual_score: i64 },
    /// The reported viewport shrank below 85% of its starting width or
    /// height; the submitted values are carried as given, either possibly
    /// absent.
    ViewportShrink { viewport_w: Option<u32>, viewport_h: Option<u32> },
    /// The reported device pixel ratio shrank below 85% of its starting
    /// value (thousandths).
    DprShrink { dpr_milli: u32 },
}

impl SubmitOutcome {
    /// The machine-readable reason string for this outcome.
    pub fn reason(&self) -> (r: String)
        ensures
            r@ == self.spec_reason(),
    {
        match self {
            SubmitOutcome::Accepted => "accepted".to_owned(),
            SubmitOutcome::InvalidSession => "invalid session".to_owned(),
            SubmitOutcome::SessionAlreadyUsed => "session already used".to_owned(),
            SubmitOutcome::ScoreTimeMismatch { .. } => "score/time mismatch".to_owned(),
            SubmitOutcome::ViewportShrink { .. } => "viewport shrink / zoom detected".to_owned(),
            SubmitOutcome::DprShrink { .. } => "devicePixelRatio shrink detected".to_owned(),
        }
    }

    /// The reason string, as a mathematical value.
    pub open spec fn spec_reason(self) -> Seq<char> {
        match self {
            SubmitOutcome::Accepted => "accepted"@,
            SubmitOutcome::InvalidSession => "invalid session"@,
            SubmitOutcome::SessionAlreadyUsed => "session already used"@,
            SubmitOutcome::ScoreTimeMismatch { .. } => "score/time mismatch"@,
            SubmitOutcome::ViewportShrink { .. } => "viewport shrink / zoom detected"@,
            SubmitOutcome::DprShrink { .. } => "devicePixelRatio shrink detected"@,
        }
    }

    /// Whether the submission was admitted into the ranked list.
    pub fn is_accepted(&self) -> (r: bool)
        ensures
            r == (*self is Accepted),
    {
        match self {
            SubmitOutcome::Accepted => true,
            _ => false,
        }
    }
}

} // verus!
