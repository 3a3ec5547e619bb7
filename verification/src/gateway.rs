//! Input screening for the query/mutation gateway that fronts the four
//! stores: the shapes callers submit over the network, and the checks
//! applied to them before any store operation is invoked.

use vstd::prelude::*;

use crate::liveness::spec_advisory_status;
use crate::vault::VaultStatus;

verus! {

/// Requested vault creation: the owner's account address and the token
/// to custody.
pub struct CreateVaultInput {
    pub stellar_address: String,
    pub token_address: String,
}

/// One requested allocation entry: an account address and a share in
/// basis points.
pub struct BeneficiaryInput {
    pub stellar_address: String,
    pub percentage: i32,
}

/// A submitted verification: the principal's address and the optional
/// component scores, each in basis points.
pub struct VerificationInput {
    pub stellar_address: String,
    pub face_match_score: Option<i32>,
    pub face_liveness_score: Option<i32>,
    pub fingerprint_frequency: Option<i32>,
    pub typing_pattern_match: Option<i32>,
    pub app_usage_match: Option<i32>,
    pub movement_pattern_match: Option<i32>,
}

/// Severity label shown for a liveness score.
#[derive(Clone, Copy, PartialEq, Eq, Structural, Debug)]
pub enum AlertLevel {
    Info,
    Warning,
    Critical,
}

/// Sum of the requested shares, in basis points.
pub open spec fn spec_share_sum(s: Seq<BeneficiaryInput>) -> int
    decreases s.len(),
{
    if s.len() == 0 {
        0
    } else {
        spec_share_sum(s.drop_last()) + s.last().percentage
    }
}

/// Whether a set of requested shares sums to exactly 10000 basis points
/// (the condition under which the gateway forwards it to a store).
pub fn validate_beneficiary_shares(inputs: &Vec<BeneficiaryInput>) -> (r: bool)
    ensures
        r <==> spec_share_sum(inputs@) == 10000,
{
    let n = inputs.len();
    let mut sum: i128 = 0;
    let mut i: usize = 0;
    while i < n
        invariant
            i <= n,
            n == inputs@.len(),
            sum == spec_share_sum(inputs@.take(i as int)),
            -(i * 0x8000_0000) <= sum <= i * 0x8000_0000,
        decreases n - i,
    {
        proof {
            assert(inputs@.take(i + 1).drop_last() =~= inputs@.take(i as int));
            assert(inputs@.take(i + 1).last() == inputs@[i as int]);
        }
        sum = sum + inputs[i].percentage as i128;
        i = i + 1;
    }
    proof {
        assert(inputs@.take(n as int) =~= inputs@);
    }
    sum == 10000
}

/// Whether a score lies in the accepted range [0, 10000].
pub open spec fn spec_score_in_range(score: i32) -> bool {
    0 <= score <= 10000
}

/// Range check applied to every submitted score before it reaches the
/// oracle.
pub fn validate_score(score: i32) -> (r: bool)
    ensures
        r == spec_score_in_range(score),
{
    0 <= score && score <= 10000
}

/// Whether every component score that is present lies in [0, 10000].
pub open spec fn spec_verification_input_valid(v: VerificationInput) -> bool {
    &&& (v.face_match_score matches Some(s) ==> spec_score_in_range(s))
    &&& (v.face_liveness_score matches Some(s) ==> spec_score_in_range(s))
    &&& (v.fingerprint_frequency matches Some(s) ==> spec_score_in_range(s))
    &&& (v.typing_pattern_match matches Some(s) ==> spec_score_in_range(s))
    &&& (v.app_usage_match matches Some(s) ==> spec_score_in_range(s))
    &&& (v.movement_pattern_match matches Some(s) ==> spec_score_in_range(s))
}

impl VerificationInput {
    /// Range-check every component score that is present.
    pub fn validate(&self) -> (r: bool)
        ensures
            r == spec_verification_input_valid(*self),
    {
        let mut ok = true;
        match self.face_match_score {
            Some(s) => { ok = ok && validate_score(s) },
            None => {},
        }
        match self.face_liveness_score {
            Some(s) => { ok = ok && validate_score(s) },
            None => {},
        }
        match self.fingerprint_frequency {
            Some(s) => { ok = ok && validate_score(s) },
            None => {},
        }
        match self.typing_pattern_match {
            Some(s) => { ok = ok && validate_score(s) },
            None => {},
        }
        match self.app_usage_match {
            Some(s) => { ok = ok && validate_score(s) },
            None => {},
        }
        match self.movement_pattern_match {
            Some(s) => { ok = ok && validate_score(s) },
            None => {},
        }
        ok
    }
}

/// The severity label of a score against the oracle's thresholds,
/// aligned with the advisory bands: `Critical` where the band is
/// `GracePeriod`, `Warning` where it is `Alert`, `Info` where it is
/// `Active`.
pub open spec fn spec_alert_level(
    score: u32,
    alert_threshold: u32,
    critical_threshold: u32,
) -> AlertLevel {
    match spec_advisory_status(score, alert_threshold, critical_threshold) {
        VaultStatus::GracePeriod => AlertLevel::Critical,
        VaultStatus::Alert => AlertLevel::Warning,
        _ => AlertLevel::Info,
    }
}

/// Label a liveness score for display.
pub fn alert_level_for(score: u32, alert_threshold: u32, critical_threshold: u32) -> (r: AlertLevel)
    ensures
        r == spec_alert_level(score, alert_threshold, critical_threshold),
{
    if score < critical_threshold {
        AlertLevel::Critical
    } else if score < alert_threshold {
        AlertLevel::Warning
    } else {
        AlertLevel::Info
    }
}

} // verus!
