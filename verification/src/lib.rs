//! Planning for a caller of somatic variants in a tumor and its normal.
//!
//! The caller weighs the reads of two samples at each candidate variant
//! and gives the posterior probability of each of a set of events. What
//! is decided before any read is touched lives here and is proved:
//!
//! * [`double`]: binary64 numbers by their bits, with their order;
//! * [`prob`]: probabilities, checked;
//! * [`allele_freq`]: allele frequencies, spectra and intervals of them;
//! * [`event`]: events as regions of the joint allele-frequency space,
//!   and the events of a tumor and its normal, which divide that space;
//! * [`partition`]: whether given events divide the space;
//! * [`call`]: the plan of a calling run;
//! * [`filter`]: the plan of a filtering pass, with the scale of
//!   evidence by which posterior odds are judged;
//! * [`estimate`]: the observations from which a tumor's effective
//!   mutation rate is fitted;
//! * [`error`]: what can be wrong with a configuration.

pub mod allele_freq;
pub mod call;
pub mod double;
pub mod error;
pub mod estimate;
pub mod event;
pub mod filter;
pub mod partition;
pub mod prob;

use vstd::prelude::*;

verus! {

/// Equality of string slices, `str::eq` of the standard library: two
/// slices are equal exactly when they hold the same characters.
pub assume_specification[ <str as PartialEq>::eq ](a: &str, b: &str) -> (r: bool)
    ensures
        r == (a@ == b@),
;

} // verus!
