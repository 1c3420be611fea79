//! Planning a filtering pass over calls: by false discovery rate or by
//! posterior odds.

use std::ops::Range;
use itertools::Itertools;
use vstd::prelude::*;
use crate::double::{lemma_positive_by_value, lemma_unit_values, Double};
use crate::error::ConfigError;
use crate::prob::Prob;

verus! {

/// An event that is known by its name alone.
#[derive(Clone, Debug, PartialEq, Eq)]
pub struct DummyEvent {
    pub name: String,
}

impl DummyEvent {
    pub fn new(name: String) -> (r: DummyEvent)
        ensures
            r.name == name,
    {
        DummyEvent { name }
    }

    pub fn name(&self) -> (r: &str)
        ensures
            r@ == self.name@,
    {
        self.name.as_str()
    }
}

/// The names of a list of events, in its order.
pub open spec fn event_names(events: Seq<DummyEvent>) -> Seq<Seq<char>> {
    events.map_values(|e: DummyEvent| e.name@)
}

/// The texts of a list of strings, in its order.
pub open spec fn texts(names: Seq<String>) -> Seq<Seq<char>> {
    names.map_values(|s: String| s@)
}

/// `Itertools::collect_vec` of itertools, on the names turned into events
/// one by one: it gathers the items of an iterator into a vector, each
/// item once and in the iterator's order. So there is one event for each
/// name, under that name and at the name's place.
#[verifier::external_body]
fn collect_events(names: Vec<String>) -> (events: Vec<DummyEvent>)
    ensures
        event_names(events@) == texts(names@),
{
    names.into_iter().map(DummyEvent::new).collect_vec()
}

/// The kind of variant that a filter looks at, with the lengths that it
/// admits where the kind has a length: from `start` up to but without
/// `end`.
#[derive(Clone, Debug, PartialEq, Eq)]
pub enum VariantType {
    Insertion(Option<Range<u32>>),
    Deletion(Option<Range<u32>>),
    SNV,
}

/// The variant type that a name and two optional bounds denote. Lengths
/// are bounded only where both bounds are given, and never for an SNV.
pub open spec fn vartype_of(vartype: Seq<char>, min_len: Option<u32>, max_len: Option<u32>) -> Result<
    VariantType,
    ConfigError,
> {
    let bounds = match (min_len, max_len) {
        (Some(min_len), Some(max_len)) => Some(Range { start: min_len, end: max_len }),
        _ => None,
    };
    if vartype == "SNV"@ {
        Ok(VariantType::SNV)
    } else if vartype == "INS"@ {
        Ok(VariantType::Insertion(bounds))
    } else if vartype == "DEL"@ {
        Ok(VariantType::Deletion(bounds))
    } else {
        Err(ConfigError::UnsupportedVariantType)
    }
}

/// Reads a variant type from its name, `SNV`, `INS` or `DEL`, and the
/// bounds on its length.
pub fn parse_vartype(vartype: &str, min_len: Option<u32>, max_len: Option<u32>) -> (r: Result<
    VariantType,
    ConfigError,
>)
    ensures
        r == vartype_of(vartype@, min_len, max_len),
{
    let bounds: Option<Range<u32>> = match (min_len, max_len) {
        (Some(min_len), Some(max_len)) => Some(min_len..max_len),
        _ => None,
    };
    if vartype.eq("SNV") {
        Ok(VariantType::SNV)
    } else if vartype.eq("INS") {
        Ok(VariantType::Insertion(bounds))
    } else if vartype.eq("DEL") {
        Ok(VariantType::Deletion(bounds))
    } else {
        Err(ConfigError::UnsupportedVariantType)
    }
}

/// The strength of the evidence for a hypothesis over another, on the
/// scale of Kass and Raftery, from the weakest to the strongest.
#[derive(Clone, Copy, Debug, PartialEq, Eq, Structural)]
pub enum KassRaftery {
    NoEvidence,
    Barely,
    Positive,
    Strong,
    VeryStrong,
}

/// The category that a score's name denotes.
pub open spec fn evidence_of(score: Seq<char>) -> Result<KassRaftery, ConfigError> {
    if score == "none"@ {
        Ok(KassRaftery::NoEvidence)
    } else if score == "barely"@ {
        Ok(KassRaftery::Barely)
    } else if score == "positive"@ {
        Ok(KassRaftery::Positive)
    } else if score == "strong"@ {
        Ok(KassRaftery::Strong)
    } else if score == "very-strong"@ {
        Ok(KassRaftery::VeryStrong)
    } else {
        Err(ConfigError::UnknownEvidence)
    }
}

impl KassRaftery {
    /// The place of the category on the scale, from 0 for no evidence.
    pub open spec fn strength(self) -> nat {
        match self {
            KassRaftery::NoEvidence => 0,
            KassRaftery::Barely => 1,
            KassRaftery::Positive => 2,
            KassRaftery::Strong => 3,
            KassRaftery::VeryStrong => 4,
        }
    }

    /// A call whose evidence is of this category passes a filter that
    /// asks for `min` at least.
    pub open spec fn passes(self, min: KassRaftery) -> bool {
        self.strength() >= min.strength()
    }

    /// Reads a category from its name: `none`, `barely`, `positive`,
    /// `strong` or `very-strong`.
    pub fn parse(score: &str) -> (r: Result<KassRaftery, ConfigError>)
        ensures
            r == evidence_of(score@),
    {
        if score.eq("none") {
            Ok(KassRaftery::NoEvidence)
        } else if score.eq("barely") {
            Ok(KassRaftery::Barely)
        } else if score.eq("positive") {
            Ok(KassRaftery::Positive)
        } else if score.eq("strong") {
            Ok(KassRaftery::Strong)
        } else if score.eq("very-strong") {
            Ok(KassRaftery::VeryStrong)
        } else {
            Err(ConfigError::UnknownEvidence)
        }
    }

    fn rank(self) -> (r: u8)
        ensures
            r == self.strength(),
    {
        match self {
            KassRaftery::NoEvidence => 0,
            KassRaftery::Barely => 1,
            KassRaftery::Positive => 2,
            KassRaftery::Strong => 3,
            KassRaftery::VeryStrong => 4,
        }
    }

    /// Whether evidence of this category is at least as strong as `min`.
    pub fn at_least(self, min: KassRaftery) -> (r: bool)
        ensures
            r == self.passes(min),
    {
        self.rank() >= min.rank()
    }
}

/// A filter that asks for less lets through whatever one that asks for
/// more lets through.
pub proof fn lemma_weaker_filter_passes_more(
    evidence: KassRaftery,
    weaker: KassRaftery,
    stronger: KassRaftery,
)
    requires
        weaker.strength() <= stronger.strength(),
        evidence.passes(stronger),
    ensures
        evidence.passes(weaker),
{
}

/// Whatever passes a filter for strong evidence passes one for evidence
/// that is barely worth a mention.
pub proof fn lemma_strong_passes_barely(evidence: KassRaftery)
    requires
        evidence.passes(KassRaftery::Strong),
    ensures
        evidence.passes(KassRaftery::Barely),
{
}

/// The filtering that was asked for, as read.
#[derive(Clone, Debug, PartialEq, Eq)]
pub enum FilterCommand {
    /// Keep the calls of one variant type at a false discovery rate.
    ControlFdr {
        /// The file of calls.
        calls: String,
        vartype: String,
        min_len: Option<u32>,
        max_len: Option<u32>,
        /// The rate, if what was given for it is a number.
        fdr: Option<Double>,
    },
    /// Keep the calls with posterior odds of a category at least.
    PosteriorOdds { odds: String },
}

/// A planned filtering.
#[derive(Clone, Debug, PartialEq, Eq)]
pub enum FilterAction {
    ControlFdr { calls: String, vartype: VariantType, alpha: Prob },
    PosteriorOdds { min_evidence: KassRaftery },
    /// No filtering was asked for.
    Nothing,
}

/// A planned filtering pass: the events whose probabilities are summed
/// for each call, and what to keep.
#[derive(Clone, Debug, PartialEq, Eq)]
pub struct FilterPlan {
    pub events: Vec<DummyEvent>,
    pub action: FilterAction,
}

impl FilterCommand {
    /// What keeps the filtering from being planned, if anything does. For
    /// a false discovery rate: an unsupported variant type; else a rate
    /// that is no number; else one that is no probability; else one that
    /// is zero, for the rate has to lie above 0 and at most at 1. For
    /// posterior odds: an unknown category.
    pub open spec fn planning_error(self) -> Option<ConfigError> {
        match self {
            FilterCommand::ControlFdr { calls, vartype, min_len, max_len, fdr } => {
                if vartype_of(vartype@, min_len, max_len) is Err {
                    Some(ConfigError::UnsupportedVariantType)
                } else {
                    match fdr {
                        None => Some(ConfigError::InvalidRate),
                        Some(alpha) => if !alpha.in_unit_interval() {
                            Some(ConfigError::InvalidProbability(alpha))
                        } else if alpha.ordinal() == 0 {
                            Some(ConfigError::ZeroRate)
                        } else {
                            None
                        },
                    }
                }
            },
            FilterCommand::PosteriorOdds { odds } => {
                if evidence_of(odds@) is Err {
                    Some(ConfigError::UnknownEvidence)
                } else {
                    None
                }
            },
        }
    }
}

impl FilterAction {
    /// The action is the one that the command describes; a false
    /// discovery rate lies above 0 and at most at 1.
    pub open spec fn follows(self, command: Option<FilterCommand>) -> bool {
        match command {
            Some(FilterCommand::ControlFdr { calls, vartype, min_len, max_len, fdr }) => {
                &&& self matches FilterAction::ControlFdr { calls: c, vartype: v, alpha }
                &&& c@ == calls@
                &&& Ok::<VariantType, ConfigError>(v) == vartype_of(vartype@, min_len, max_len)
                &&& Some(alpha@) == fdr
                &&& alpha@.finite()
                &&& 0real < alpha@.value() <= 1real
            },
            Some(FilterCommand::PosteriorOdds { odds }) => {
                &&& self matches FilterAction::PosteriorOdds { min_evidence }
                &&& Ok::<KassRaftery, ConfigError>(min_evidence) == evidence_of(odds@)
            },
            None => self is Nothing,
        }
    }
}

/// Plans a filtering pass over the named events.
///
/// Without a command there is nothing to do. With one, the plan holds an
/// event for each name, in the order given, and the action that the
/// command describes; it fails exactly where the command's own
/// `planning_error` says so. A pass at a false discovery rate is planned
/// only for a rate above 0 and at most at 1.
pub fn filter(events: Vec<String>, command: Option<FilterCommand>) -> (r: Result<
    FilterPlan,
    ConfigError,
>)
    ensures
        match command {
            Some(c) => c.planning_error() == match r {
                Ok(_) => None,
                Err(e) => Some(e),
            },
            None => r is Ok,
        },
        r matches Ok(plan) ==> event_names(plan.events@) == texts(events@) && plan.action.follows(
            command,
        ),
{
    let events = collect_events(events);
    let action = match command {
        Some(FilterCommand::ControlFdr { calls, vartype, min_len, max_len, fdr }) => {
            let vartype = match parse_vartype(vartype.as_str(), min_len, max_len) {
                Ok(vartype) => vartype,
                Err(e) => {
                    return Err(e);
                },
            };
            let alpha = match fdr {
                Some(alpha) => alpha,
                None => {
                    return Err(ConfigError::InvalidRate);
                },
            };
            let alpha = match Prob::checked(alpha) {
                Ok(alpha) => alpha,
                Err(e) => {
                    return Err(e);
                },
            };
            proof {
                lemma_unit_values();
                lemma_positive_by_value(alpha@);
            }
            if alpha.get().le(Double::from_bits(0)) {
                return Err(ConfigError::ZeroRate);
            }
            FilterAction::ControlFdr { calls, vartype, alpha }
        },
        Some(FilterCommand::PosteriorOdds { odds }) => {
            let min_evidence = match KassRaftery::parse(odds.as_str()) {
                Ok(min_evidence) => min_evidence,
                Err(e) => {
                    return Err(e);
                },
            };
            FilterAction::PosteriorOdds { min_evidence }
        },
        None => FilterAction::Nothing,
    };
    Ok(FilterPlan { events, action })
}

} // verus!
