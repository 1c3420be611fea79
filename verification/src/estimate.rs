//! Choosing the observations from which a tumor's effective mutation rate
//! is estimated.
//!
//! The rate is fitted to the allele frequencies of subclonal somatic
//! mutations. Frequencies below the window are too noisy and those above
//! it are clonal, so only those inside it are fitted.

use vstd::prelude::*;
use crate::double::Double;

verus! {

/// The lower end of the window where none is given: the binary64 number
/// nearest to 12 hundredths.
pub const DEFAULT_MIN_AF: u64 = 0x3FBE_B851_EB85_1EB8;

/// The upper end of the window where none is given: a quarter.
pub const DEFAULT_MAX_AF: u64 = 0x3FD0_0000_0000_0000;

/// The window's ends: those given, else the defaults.
pub open spec fn window(min_af: Option<Double>, max_af: Option<Double>) -> (Double, Double) {
    (
        match min_af {
            Some(f) => f,
            None => Double { bits: DEFAULT_MIN_AF },
        },
        match max_af {
            Some(f) => f,
            None => Double { bits: DEFAULT_MAX_AF },
        },
    )
}

/// The frequency is a number from the window's lower end to its upper
/// end, both included.
pub open spec fn in_window(f: Double, ends: (Double, Double)) -> bool {
    ends.0.leq(f) && f.leq(ends.1)
}

/// The frequencies of the window, each as often and in the order as
/// observed.
pub open spec fn observations_in_window(freqs: Seq<Double>, ends: (Double, Double)) -> Seq<Double> {
    freqs.filter(|f: Double| in_window(f, ends))
}

/// Selects the allele frequencies from which the effective mutation rate
/// is fitted: those from `min_af` to `max_af`. None of them is a NaN,
/// whatever was observed.
pub fn effective_mutation_rate(
    freqs: &Vec<Double>,
    min_af: Option<Double>,
    max_af: Option<Double>,
) -> (r: Vec<Double>)
    ensures
        r@ == observations_in_window(freqs@, window(min_af, max_af)),
        forall|i: int| 0 <= i < r@.len() ==> !(#[trigger] r@[i]).nan(),
{
    let min_af = match min_af {
        Some(f) => f,
        None => Double::from_bits(DEFAULT_MIN_AF),
    };
    let max_af = match max_af {
        Some(f) => f,
        None => Double::from_bits(DEFAULT_MAX_AF),
    };
    let ghost ends = (min_af, max_af);
    let ghost inside = |f: Double| in_window(f, ends);
    let mut selected: Vec<Double> = Vec::new();
    let mut i: usize = 0;
    proof {
        reveal_with_fuel(Seq::filter, 1);
    }
    while i < freqs.len()
        invariant
            i <= freqs.len(),
            ends == (min_af, max_af),
            inside == (|f: Double| in_window(f, ends)),
            selected@ == freqs@.take(i as int).filter(inside),
            forall|k: int| 0 <= k < selected@.len() ==> !(#[trigger] selected@[k]).nan(),
        decreases freqs.len() - i,
    {
        let f = freqs[i];
        proof {
            reveal_with_fuel(Seq::filter, 1);
            assert(freqs@.take(i + 1).drop_last() == freqs@.take(i as int));
        }
        if f.ge(min_af) && f.le(max_af) {
            selected.push(f);
        }
        i = i + 1;
    }
    proof {
        assert(freqs@.take(i as int) == freqs@);
    }
    selected
}

} // verus!
