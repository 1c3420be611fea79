//! Checked probabilities.

use vstd::prelude::*;
use crate::double::{lemma_unit_interval_by_value, lemma_unit_interval_is_finite, Double, ONE_BITS};
use crate::error::ConfigError;

verus! {

/// A probability: a binary64 number of the closed unit interval. No value
/// of this type holds anything else.
#[derive(Clone, Copy, Debug, PartialEq, Eq)]
pub struct Prob {
    inner: Double,
}

impl View for Prob {
    type V = Double;

    closed spec fn view(&self) -> Double {
        self.inner
    }
}

impl Prob {
    #[verifier::type_invariant]
    spec fn valid(self) -> bool {
        self.inner.in_unit_interval()
    }

    /// Accepts `p` exactly when it is a number from 0 to 1, the ends
    /// included; hands anything else back as the error.
    pub fn checked(p: Double) -> (r: Result<Prob, ConfigError>)
        ensures
            r is Ok <==> p.in_unit_interval(),
            r is Ok <==> p.finite() && 0real <= p.value() <= 1real,
            r matches Ok(q) ==> q@ == p,
            r matches Err(e) ==> e == ConfigError::InvalidProbability(p),
    {
        proof {
            if p.in_unit_interval() {
                lemma_unit_interval_is_finite(p);
            }
            if p.finite() {
                lemma_unit_interval_by_value(p);
            }
        }
        if Double::from_bits(0).le(p) && p.le(Double::from_bits(ONE_BITS)) {
            Ok(Prob { inner: p })
        } else {
            Err(ConfigError::InvalidProbability(p))
        }
    }

    /// The certain event's probability.
    pub fn one() -> (r: Prob)
        ensures
            r@ == Double::one(),
    {
        proof {
            crate::double::lemma_unit_values();
        }
        Prob { inner: Double::from_bits(ONE_BITS) }
    }

    /// The number, which always lies from 0 to 1.
    pub fn get(&self) -> (r: Double)
        ensures
            r == self@,
            r.in_unit_interval(),
            r.finite(),
            0real <= r.value() <= 1real,
    {
        proof {
            use_type_invariant(self);
            lemma_unit_interval_is_finite(self.inner);
            lemma_unit_interval_by_value(self.inner);
        }
        self.inner
    }
}

} // verus!
