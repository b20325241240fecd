//! Labels attached to a projected water temperature: where the projection came
//! from and how far it can be trusted.

use vstd::prelude::*;

verus! {

/// Where a projected temperature came from.
#[derive(Debug, Clone, Copy, PartialEq, Eq, Structural)]
pub enum PredictionBasis {
    /// The reading is current (zero/negligible gap); no projection needed.
    Measured,
    /// Full evaporation-aware model with live weather.
    ProjectedWeather,
    /// Newtonian cooling toward an air temperature, without wind/evaporation.
    ProjectedCoolingOnly,
    /// Cannot honestly project (gap too long, or no anchor/air temp).
    /// Serialized as `"none"`.
    NotAvailable,
}

/// The wire name of a prediction basis.
pub open spec fn basis_name(b: PredictionBasis) -> Seq<char> {
    match b {
        PredictionBasis::Measured => "measured"@,
        PredictionBasis::ProjectedWeather => "projected-weather"@,
        PredictionBasis::ProjectedCoolingOnly => "projected-cooling-only"@,
        PredictionBasis::NotAvailable => "none"@,
    }
}

impl PredictionBasis {
    /// The wire name of this basis.
    pub fn as_str(self) -> (s: &'static str)
        ensures
            s@ == basis_name(self),
    {
        match self {
            PredictionBasis::Measured => "measured",
            PredictionBasis::ProjectedWeather => "projected-weather",
            PredictionBasis::ProjectedCoolingOnly => "projected-cooling-only",
            PredictionBasis::NotAvailable => "none",
        }
    }
}

/// Confidence band for a projection or a fit.
#[derive(Debug, Clone, Copy, PartialEq, Eq, Structural)]
pub enum PredictionConfidence {
    High,
    Medium,
    Low,
    /// No confidence at all (no projection). Serialized as `"none"`.
    NotAvailable,
}

/// The wire name of a confidence band.
pub open spec fn confidence_name(c: PredictionConfidence) -> Seq<char> {
    match c {
        PredictionConfidence::High => "high"@,
        PredictionConfidence::Medium => "medium"@,
        PredictionConfidence::Low => "low"@,
        PredictionConfidence::NotAvailable => "none"@,
    }
}

/// The band one tier below `c`; a real projection never drops below `Low`.
pub open spec fn confidence_below(c: PredictionConfidence) -> PredictionConfidence {
    match c {
        PredictionConfidence::High => PredictionConfidence::Medium,
        PredictionConfidence::Medium => PredictionConfidence::Low,
        PredictionConfidence::Low => PredictionConfidence::Low,
        PredictionConfidence::NotAvailable => PredictionConfidence::NotAvailable,
    }
}

/// Rank of a band: higher is more trusted.
pub open spec fn confidence_rank(c: PredictionConfidence) -> int {
    match c {
        PredictionConfidence::High => 3,
        PredictionConfidence::Medium => 2,
        PredictionConfidence::Low => 1,
        PredictionConfidence::NotAvailable => 0,
    }
}

impl PredictionConfidence {
    /// The wire name of this band.
    pub fn as_str(self) -> (s: &'static str)
        ensures
            s@ == confidence_name(self),
    {
        match self {
            PredictionConfidence::High => "high",
            PredictionConfidence::Medium => "medium",
            PredictionConfidence::Low => "low",
            PredictionConfidence::NotAvailable => "none",
        }
    }

    /// Drop one tier (e.g. when the rolling error is large). A real projection
    /// never collapses below `Low`; only `NotAvailable` stays `NotAvailable`.
    pub fn downgraded(self) -> (d: Self)
        ensures
            d == confidence_below(self),
    {
        match self {
            PredictionConfidence::High => PredictionConfidence::Medium,
            PredictionConfidence::Medium => PredictionConfidence::Low,
            PredictionConfidence::Low => PredictionConfidence::Low,
            PredictionConfidence::NotAvailable => PredictionConfidence::NotAvailable,
        }
    }
}

/// Downgrading never raises confidence, keeps a real projection at `Low` or
/// above, and reaches a fixed point after at most two steps.
pub proof fn lemma_downgrade_monotone(c: PredictionConfidence)
    ensures
        confidence_rank(confidence_below(c)) <= confidence_rank(c),
        confidence_rank(c) >= 1 ==> confidence_rank(confidence_below(c)) >= 1,
        confidence_below(confidence_below(confidence_below(c))) == confidence_below(
            confidence_below(c),
        ),
{
}

} // verus!
