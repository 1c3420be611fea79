//! Planning a tumor–normal calling run.
//!
//! A run is planned from the options as they were read, before any
//! evidence is touched: every probability is checked, the two samples are
//! parameterized, the events are laid out and the prior model is chosen.
//! What comes out is all that the caller needs besides the evidence
//! itself.

use vstd::prelude::*;
use crate::allele_freq::feasible_spectrum;
use crate::double::Double;
use crate::error::{ConfigError, Error, ModelError};
use crate::event::{partitions, regions, tumor_normal_regions, PairEvent};
use crate::prob::Prob;

verus! {

/// Tells a file path from the conventional dash that stands for a pipe:
/// the path where one is given, nothing for the dash or for no argument.
pub fn path_or_pipe<'a>(arg: Option<&'a str>) -> (r: Option<&'a str>)
    ensures
        r == match arg {
            Some(f) => if f@ == "-"@ {
                None
            } else {
                Some(f)
            },
            None => None,
        },
{
    match arg {
        Some(f) => if f.eq("-") {
            None
        } else {
            Some(f)
        },
        None => None,
    }
}

/// What a path argument holds, as text.
pub open spec fn text(arg: Option<String>) -> Option<Seq<char>> {
    match arg {
        Some(s) => Some(s@),
        None => None,
    }
}

/// The path in a path argument, if it names one.
pub open spec fn named_path(arg: Option<Seq<char>>) -> Option<Seq<char>> {
    match arg {
        Some(f) => if f == "-"@ {
            None
        } else {
            Some(f)
        },
        None => None,
    }
}

fn owned_path(arg: &Option<String>) -> (r: Option<String>)
    ensures
        text(r) == named_path(text(*arg)),
{
    let given: Option<&str> = match arg {
        Some(s) => Some(s.as_str()),
        None => None,
    };
    match path_or_pipe(given) {
        Some(f) => Some(f.to_owned()),
        None => None,
    }
}

/// The options of a tumor–normal run, as read.
#[derive(Clone, Debug, PartialEq, Eq)]
pub struct TumorNormalArgs {
    /// Expected heterozygosity of the normal sample.
    pub heterozygosity: Double,
    /// Genome copies per cell of the normal sample.
    pub ploidy: u32,
    /// Effective mutation rate of the tumor; the full prior needs it, and
    /// needs it above zero.
    pub effective_mutation_rate: Option<Double>,
    /// Factor of the mutation rate for deletions.
    pub deletion_factor: Double,
    /// Factor of the mutation rate for insertions.
    pub insertion_factor: Double,
    /// Fraction of tumor cells in the tumor sample.
    pub purity: Double,
    /// Reads are taken from this far around a locus: one base at least.
    pub pileup_window: u32,
    pub omit_fragment_evidence: bool,
    pub omit_snvs: bool,
    pub omit_indels: bool,
    /// Use a flat prior in place of the population-genetics one.
    pub flat_priors: bool,
    /// The candidates' END tags exclude the last base.
    pub exclusive_end: bool,
    /// Bases considered around an indel breakpoint.
    pub indel_window: u32,
    pub prob_spurious_ins: Double,
    pub prob_spurious_del: Double,
    pub prob_ins_extend: Double,
    pub prob_del_extend: Double,
    /// Longer indels are not called.
    pub max_indel_len: u32,
    /// Where the candidates come from; a dash or nothing for a pipe.
    pub candidates: Option<String>,
    /// Where the calls go; a dash or nothing for a pipe.
    pub output: Option<String>,
}

/// How one sample's evidence is read and weighed.
#[derive(Clone, Copy, Debug, PartialEq, Eq)]
pub struct SampleConfig {
    pub pileup_window: u32,
    pub use_fragment_evidence: bool,
    pub use_secondary: bool,
    pub use_mapq: bool,
    pub purity: Prob,
    pub prob_spurious_ins: Prob,
    pub prob_spurious_del: Prob,
    pub prob_ins_extend: Prob,
    pub prob_del_extend: Prob,
    pub indel_haplotype_window: u32,
}

/// The prior model chosen for a run, short of the genome's size.
#[derive(Clone, Copy, Debug, PartialEq, Eq)]
pub enum PriorChoice {
    /// The population-genetics model of a tumor and its normal.
    Full {
        effective_mutation_rate: Double,
        deletion_factor: Double,
        insertion_factor: Double,
        heterozygosity: Prob,
    },
    /// The same mass on every feasible pair of allele frequencies.
    Flat,
}

/// A prior model with all its parameters.
#[derive(Clone, Copy, Debug, PartialEq, Eq)]
pub enum PriorModel {
    TumorNormal {
        ploidy: u32,
        effective_mutation_rate: Double,
        deletion_factor: Double,
        insertion_factor: Double,
        genome_size: u64,
        heterozygosity: Prob,
    },
    FlatTumorNormal { ploidy: u32 },
}

/// A planned run.
#[derive(Clone, Debug, PartialEq, Eq)]
pub struct CallPlan {
    pub tumor: SampleConfig,
    pub normal: SampleConfig,
    /// The events to call: they divide the joint allele-frequency space.
    pub events: Vec<PairEvent>,
    pub ploidy: u32,
    pub prior: PriorChoice,
    pub omit_snvs: bool,
    pub omit_indels: bool,
    pub max_indel_len: Option<u32>,
    pub exclusive_end: bool,
    /// The candidates' file; none for the standard input.
    pub candidates: Option<String>,
    /// The calls' file; none for the standard output.
    pub output: Option<String>,
}

impl TumorNormalArgs {
    /// The values that have to be probabilities, in the order in which
    /// they are checked.
    pub open spec fn probabilities(self) -> Seq<Double> {
        seq![
            self.heterozygosity,
            self.prob_spurious_ins,
            self.prob_spurious_del,
            self.prob_ins_extend,
            self.prob_del_extend,
            self.purity,
        ]
    }

    /// The mutation rate that the full prior cannot take, if that prior is
    /// asked for with one: a rate that is no number above zero.
    pub open spec fn unusable_mutation_rate(self) -> Option<Double> {
        match self.effective_mutation_rate {
            Some(rate) => if !self.flat_priors && !rate.positive() {
                Some(rate)
            } else {
                None
            },
            None => None,
        }
    }

    /// What keeps a run from being planned, if anything does: the first
    /// value that is no probability; else a full prior without a mutation
    /// rate, or with one that is not above zero; else a pileup window of
    /// zero; else a ploidy of zero. A flat prior asks nothing of the
    /// mutation rate.
    pub open spec fn planning_error(self) -> Option<Error> {
        match first_outside_unit_interval(self.probabilities()) {
            Some(p) => Some(Error::Config(ConfigError::InvalidProbability(p))),
            None => if !self.flat_priors && self.effective_mutation_rate is None {
                Some(Error::Config(ConfigError::MissingMutationRate))
            } else if self.unusable_mutation_rate() is Some {
                Some(
                    Error::Config(
                        ConfigError::InvalidMutationRate(self.unusable_mutation_rate()->0),
                    ),
                )
            } else if self.pileup_window == 0 {
                Some(Error::Config(ConfigError::ZeroPileupWindow))
            } else if self.ploidy == 0 {
                Some(
                    Error::Model(ModelError::InfeasibleAlleleFreqs { ploidy: 0, amplification: 1 }),
                )
            } else {
                None
            },
        }
    }
}

/// The first of the values that is not a number from 0 to 1.
pub open spec fn first_outside_unit_interval(values: Seq<Double>) -> Option<Double>
    decreases values.len(),
{
    if values.len() == 0 {
        None
    } else if !values[0].in_unit_interval() {
        Some(values[0])
    } else {
        first_outside_unit_interval(values.skip(1))
    }
}

impl SampleConfig {
    /// The sample is set up as the options ask, with the given purity.
    /// Secondary alignments and mapping qualities are never used.
    pub open spec fn follows(self, args: TumorNormalArgs, purity: Double) -> bool {
        &&& self.pileup_window == args.pileup_window
        &&& self.pileup_window > 0
        &&& self.use_fragment_evidence == !args.omit_fragment_evidence
        &&& !self.use_secondary
        &&& !self.use_mapq
        &&& self.purity@ == purity
        &&& self.prob_spurious_ins@ == args.prob_spurious_ins
        &&& self.prob_spurious_del@ == args.prob_spurious_del
        &&& self.prob_ins_extend@ == args.prob_ins_extend
        &&& self.prob_del_extend@ == args.prob_del_extend
        &&& self.indel_haplotype_window == args.indel_window
    }
}

impl PriorChoice {
    /// The choice is the one that the options make; the full prior has a
    /// mutation rate above zero.
    pub open spec fn follows(self, args: TumorNormalArgs) -> bool {
        if args.flat_priors {
            self is Flat
        } else {
            &&& self matches PriorChoice::Full {
                effective_mutation_rate,
                deletion_factor,
                insertion_factor,
                heterozygosity,
            }
            &&& Some(effective_mutation_rate) == args.effective_mutation_rate
            &&& effective_mutation_rate.finite()
            &&& effective_mutation_rate.value() > 0real
            &&& deletion_factor == args.deletion_factor
            &&& insertion_factor == args.insertion_factor
            &&& heterozygosity@ == args.heterozygosity
        }
    }
}

impl PriorModel {
    /// The model is the chosen one, for the given ploidy and genome size.
    pub open spec fn completes(self, choice: PriorChoice, ploidy: u32, genome_size: u64) -> bool {
        match choice {
            PriorChoice::Full {
                effective_mutation_rate,
                deletion_factor,
                insertion_factor,
                heterozygosity,
            } => self == (PriorModel::TumorNormal {
                ploidy,
                effective_mutation_rate,
                deletion_factor,
                insertion_factor,
                genome_size,
                heterozygosity,
            }),
            PriorChoice::Flat => self == (PriorModel::FlatTumorNormal { ploidy }),
        }
    }
}

impl CallPlan {
    /// The plan is the one that the options describe: the tumor sample
    /// with its purity and the normal sample pure, the three events of a
    /// tumor and its normal, and every other setting as given.
    pub open spec fn follows(self, args: TumorNormalArgs) -> bool {
        &&& self.tumor.follows(args, args.purity)
        &&& self.normal.follows(args, Double::one())
        &&& self.events@.len() == 3
        &&& regions(self.events@) == tumor_normal_regions(args.ploidy as nat)
        &&& self.ploidy == args.ploidy
        &&& self.prior.follows(args)
        &&& self.omit_snvs == args.omit_snvs
        &&& self.omit_indels == args.omit_indels
        &&& self.max_indel_len == Some(args.max_indel_len)
        &&& self.exclusive_end == args.exclusive_end
        &&& text(self.candidates) == named_path(text(args.candidates))
        &&& text(self.output) == named_path(text(args.output))
    }

    /// The prior model of the run, once the genome's size is known.
    pub fn prior_model(&self, genome_size: u64) -> (r: PriorModel)
        ensures
            r.completes(self.prior, self.ploidy, genome_size),
    {
        match self.prior {
            PriorChoice::Full {
                effective_mutation_rate,
                deletion_factor,
                insertion_factor,
                heterozygosity,
            } => PriorModel::TumorNormal {
                ploidy: self.ploidy,
                effective_mutation_rate,
                deletion_factor,
                insertion_factor,
                genome_size,
                heterozygosity,
            },
            PriorChoice::Flat => PriorModel::FlatTumorNormal { ploidy: self.ploidy },
        }
    }
}

/// Plans a tumor–normal run from its options.
///
/// Fails on the first value that has to be a probability and is none, on a
/// full prior without a mutation rate or with one that is not above zero,
/// on a pileup window of zero, and on a ploidy of zero, in that order.
/// Otherwise the plan follows the options, and its events divide the
/// joint allele-frequency space of the two samples.
pub fn tumor_normal(args: TumorNormalArgs) -> (r: Result<CallPlan, Error>)
    ensures
        r is Err <==> args.planning_error() is Some,
        r matches Err(e) ==> args.planning_error() == Some(e),
        r matches Ok(plan) ==> plan.follows(args) && partitions(
            regions(plan.events@),
            feasible_spectrum(args.ploidy as nat),
        ),
{
    proof {
        reveal_with_fuel(first_outside_unit_interval, 7);
        let ps = args.probabilities();
        assert(ps.skip(1).skip(1).skip(1).skip(1).skip(1).skip(1).len() == 0);
        assert(ps.skip(1)[0] == ps[1]);
        assert(ps.skip(1).skip(1)[0] == ps[2]);
        assert(ps.skip(1).skip(1).skip(1)[0] == ps[3]);
        assert(ps.skip(1).skip(1).skip(1).skip(1)[0] == ps[4]);
        assert(ps.skip(1).skip(1).skip(1).skip(1).skip(1)[0] == ps[5]);
    }
    let heterozygosity = match Prob::checked(args.heterozygosity) {
        Ok(p) => p,
        Err(e) => {
            return Err(Error::Config(e));
        },
    };
    let prob_spurious_ins = match Prob::checked(args.prob_spurious_ins) {
        Ok(p) => p,
        Err(e) => {
            return Err(Error::Config(e));
        },
    };
    let prob_spurious_del = match Prob::checked(args.prob_spurious_del) {
        Ok(p) => p,
        Err(e) => {
            return Err(Error::Config(e));
        },
    };
    let prob_ins_extend = match Prob::checked(args.prob_ins_extend) {
        Ok(p) => p,
        Err(e) => {
            return Err(Error::Config(e));
        },
    };
    let prob_del_extend = match Prob::checked(args.prob_del_extend) {
        Ok(p) => p,
        Err(e) => {
            return Err(Error::Config(e));
        },
    };
    let purity = match Prob::checked(args.purity) {
        Ok(p) => p,
        Err(e) => {
            return Err(Error::Config(e));
        },
    };
    let prior = if args.flat_priors {
        PriorChoice::Flat
    } else {
        match args.effective_mutation_rate {
            Some(effective_mutation_rate) => {
                if !effective_mutation_rate.is_positive() {
                    return Err(
                        Error::Config(ConfigError::InvalidMutationRate(effective_mutation_rate)),
                    );
                }
                PriorChoice::Full {
                    effective_mutation_rate,
                    deletion_factor: args.deletion_factor,
                    insertion_factor: args.insertion_factor,
                    heterozygosity,
                }
            },
            None => {
                return Err(Error::Config(ConfigError::MissingMutationRate));
            },
        }
    };
    if args.pileup_window == 0 {
        return Err(Error::Config(ConfigError::ZeroPileupWindow));
    }
    let events = match PairEvent::tumor_normal(args.ploidy) {
        Ok(events) => events,
        Err(e) => {
            return Err(Error::Model(e));
        },
    };
    let tumor = SampleConfig {
        pileup_window: args.pileup_window,
        use_fragment_evidence: !args.omit_fragment_evidence,
        use_secondary: false,
        use_mapq: false,
        purity,
        prob_spurious_ins,
        prob_spurious_del,
        prob_ins_extend,
        prob_del_extend,
        indel_haplotype_window: args.indel_window,
    };
    let normal = SampleConfig {
        pileup_window: args.pileup_window,
        use_fragment_evidence: !args.omit_fragment_evidence,
        use_secondary: false,
        use_mapq: false,
        purity: Prob::one(),
        prob_spurious_ins,
        prob_spurious_del,
        prob_ins_extend,
        prob_del_extend,
        indel_haplotype_window: args.indel_window,
    };
    let candidates = owned_path(&args.candidates);
    let output = owned_path(&args.output);
    Ok(
        CallPlan {
            tumor,
            normal,
            events,
            ploidy: args.ploidy,
            prior,
            omit_snvs: args.omit_snvs,
            omit_indels: args.omit_indels,
            max_indel_len: Some(args.max_indel_len),
            exclusive_end: args.exclusive_end,
            candidates,
            output,
        },
    )
}

/// The sum of the lengths.
pub open spec fn total_length(lens: Seq<u32>) -> nat
    decreases lens.len(),
{
    if lens.len() == 0 {
        0
    } else {
        total_length(lens.drop_last()) + lens.last() as nat
    }
}

/// The size of a genome: the sum of the lengths of its sequences, where
/// that can be counted in 64 bits.
pub fn genome_size(target_lens: &Vec<u32>) -> (r: Option<u64>)
    ensures
        r == if total_length(target_lens@) <= u64::MAX {
            Some(total_length(target_lens@) as u64)
        } else {
            None
        },
{
    let mut sum: u64 = 0;
    let mut i: usize = 0;
    while i < target_lens.len()
        invariant
            i <= target_lens.len(),
            sum == total_length(target_lens@.take(i as int)),
        decreases target_lens.len() - i,
    {
        let len: u64 = target_lens[i] as u64;
        proof {
            assert(target_lens@.take(i + 1).drop_last() == target_lens@.take(i as int));
            lemma_total_length_of_prefix(target_lens@, i + 1);
        }
        if sum > u64::MAX - len {
            return None;
        }
        sum = sum + len;
        i = i + 1;
    }
    proof {
        assert(target_lens@.take(i as int) == target_lens@);
    }
    Some(sum)
}

/// A part of the sequences is no longer than all of them.
pub proof fn lemma_total_length_of_prefix(lens: Seq<u32>, k: int)
    requires
        0 <= k <= lens.len(),
    ensures
        total_length(lens.take(k)) <= total_length(lens),
    decreases lens.len(),
{
    if k == lens.len() {
        assert(lens.take(k) == lens);
    } else {
        lemma_total_length_of_prefix(lens.drop_last(), k);
        assert(lens.drop_last().take(k) == lens.take(k));
    }
}

/// A genome of no more sequences than a 32-bit count can number has a
/// size that fits in 64 bits.
pub proof fn lemma_genome_size_fits(lens: Seq<u32>)
    requires
        lens.len() <= 0x1_0000_0000,
    ensures
        total_length(lens) <= u64::MAX,
        total_length(lens) <= lens.len() * 0xFFFF_FFFF,
{
    lemma_total_length_bound(lens);
    assert(lens.len() * 0xFFFF_FFFF <= u64::MAX) by (nonlinear_arith)
        requires
            lens.len() <= 0x1_0000_0000,
    ;
}

proof fn lemma_total_length_bound(lens: Seq<u32>)
    ensures
        total_length(lens) <= lens.len() * 0xFFFF_FFFF,
    decreases lens.len(),
{
    if lens.len() > 0 {
        lemma_total_length_bound(lens.drop_last());
        assert((lens.len() - 1) * 0xFFFF_FFFF + 0xFFFF_FFFF == lens.len() * 0xFFFF_FFFF)
            by (nonlinear_arith);
    }
}

} // verus!
