//! What can be wrong with a run before any evidence is read.

use vstd::prelude::*;
use crate::double::Double;

verus! {

/// A configuration that no run can be planned from.
#[derive(Clone, Copy, Debug, PartialEq, Eq, Structural)]
pub enum ConfigError {
    /// A value given as a probability lies outside the closed unit
    /// interval; it is handed back.
    InvalidProbability(Double),
    /// The population-genetics prior was asked for without an effective
    /// mutation rate.
    MissingMutationRate,
    /// The effective mutation rate is no number above zero; it is handed
    /// back.
    InvalidMutationRate(Double),
    /// The pileup window is zero, so that no read could be taken.
    ZeroPileupWindow,
    /// What was given for a rate is no number.
    InvalidRate,
    /// The false discovery rate is zero: it has to lie above 0.
    ZeroRate,
    /// The allele frequencies of an event, or of the joint space, are no
    /// frequencies or out of order.
    MalformedEvent,
    /// An event has a control allele frequency that the joint space has
    /// not.
    StrayEvent,
    /// Two events share a point of the joint allele-frequency space.
    OverlappingEvents,
    /// The events leave a point of the joint allele-frequency space out.
    IncompleteEvents,
    /// The variant type is none of SNV, INS and DEL.
    UnsupportedVariantType,
    /// The evidence category is none of the five of the scale.
    UnknownEvidence,
}

/// A request that the model cannot serve.
#[derive(Clone, Copy, Debug, PartialEq, Eq, Structural)]
pub enum ModelError {
    /// No allele frequency is feasible with zero genome copies, nor can
    /// more than `u32::MAX` copies be counted.
    InfeasibleAlleleFreqs { ploidy: u32, amplification: u32 },
}

/// Any failure of planning.
#[derive(Clone, Copy, Debug, PartialEq, Eq, Structural)]
pub enum Error {
    Config(ConfigError),
    Model(ModelError),
}

impl ConfigError {
    /// The text of each error, without the offending value.
    pub open spec fn description_spec(self) -> Seq<char> {
        match self {
            ConfigError::InvalidProbability(_) => "probability not in interval [0,1]"@,
            ConfigError::MissingMutationRate => "effective mutation rate missing for the full prior model"@,
            ConfigError::InvalidMutationRate(_) => "effective mutation rate not above zero"@,
            ConfigError::ZeroPileupWindow => "pileup window is zero"@,
            ConfigError::InvalidRate => "rate is not a number"@,
            ConfigError::ZeroRate => "false discovery rate is zero"@,
            ConfigError::MalformedEvent => "allele frequencies malformed"@,
            ConfigError::StrayEvent => "event outside the allele frequency space"@,
            ConfigError::OverlappingEvents => "events overlap"@,
            ConfigError::IncompleteEvents => "events do not cover the allele frequency space"@,
            ConfigError::UnsupportedVariantType => "unsupported variant type (supported: SNV, INS, DEL)"@,
            ConfigError::UnknownEvidence => "unsupported evidence category (supported: none, barely, positive, strong, very-strong)"@,
        }
    }

    pub fn description(&self) -> (r: &'static str)
        ensures
            r@ == self.description_spec(),
    {
        match self {
            ConfigError::InvalidProbability(_) => "probability not in interval [0,1]",
            ConfigError::MissingMutationRate => "effective mutation rate missing for the full prior model",
            ConfigError::InvalidMutationRate(_) => "effective mutation rate not above zero",
            ConfigError::ZeroPileupWindow => "pileup window is zero",
            ConfigError::InvalidRate => "rate is not a number",
            ConfigError::ZeroRate => "false discovery rate is zero",
            ConfigError::MalformedEvent => "allele frequencies malformed",
            ConfigError::StrayEvent => "event outside the allele frequency space",
            ConfigError::OverlappingEvents => "events overlap",
            ConfigError::IncompleteEvents => "events do not cover the allele frequency space",
            ConfigError::UnsupportedVariantType => "unsupported variant type (supported: SNV, INS, DEL)",
            ConfigError::UnknownEvidence => "unsupported evidence category (supported: none, barely, positive, strong, very-strong)",
        }
    }
}

impl ModelError {
    pub open spec fn description_spec(self) -> Seq<char> {
        match self {
            ModelError::InfeasibleAlleleFreqs { .. } => "no feasible allele frequencies for the given ploidy and amplification"@,
        }
    }

    pub fn description(&self) -> (r: &'static str)
        ensures
            r@ == self.description_spec(),
    {
        match self {
            ModelError::InfeasibleAlleleFreqs { .. } => "no feasible allele frequencies for the given ploidy and amplification",
        }
    }
}

impl Error {
    pub open spec fn description_spec(self) -> Seq<char> {
        match self {
            Error::Config(e) => e.description_spec(),
            Error::Model(e) => e.description_spec(),
        }
    }

    pub fn description(&self) -> (r: &'static str)
        ensures
            r@ == self.description_spec(),
    {
        match self {
            Error::Config(e) => e.description(),
            Error::Model(e) => e.description(),
        }
    }
}

} // verus!
