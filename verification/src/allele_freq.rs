//! Allele frequencies and the regions of them that events are made of.
//!
//! A frequency is the fraction of genome copies that carry an allele. It is
//! held exactly, as a count of copies out of a total, so that the regions
//! can be compared without rounding.

use vstd::prelude::*;
use crate::error::ModelError;

verus! {

/// The fraction `num / den` of genome copies that carry an allele.
#[derive(Clone, Copy, Debug, PartialEq, Eq, Structural)]
pub struct AlleleFreq {
    pub num: u32,
    pub den: u32,
}

impl AlleleFreq {
    /// Some copies exist and no more of them carry the allele than exist.
    pub open spec fn wf(self) -> bool {
        0 < self.den && self.num <= self.den
    }

    /// The frequency as a number.
    pub open spec fn value(self) -> real
        recommends
            self.wf(),
    {
        self.num as real / self.den as real
    }

    /// The allele is in no copy.
    pub open spec fn zero() -> AlleleFreq {
        AlleleFreq { num: 0, den: 1 }
    }

    /// The allele is in every copy.
    pub open spec fn one() -> AlleleFreq {
        AlleleFreq { num: 1, den: 1 }
    }

    /// `num` copies out of `den`, where that is a frequency.
    pub fn new(num: u32, den: u32) -> (r: Option<AlleleFreq>)
        ensures
            r == if 0 < den && num <= den {
                Some(AlleleFreq { num, den })
            } else {
                None
            },
            r matches Some(af) ==> af.wf(),
    {
        if 0 < den && num <= den {
            Some(AlleleFreq { num, den })
        } else {
            None
        }
    }

    pub fn is_wf(self) -> (r: bool)
        ensures
            r == self.wf(),
    {
        0 < self.den && self.num <= self.den
    }

    pub fn absent() -> (r: AlleleFreq)
        ensures
            r == AlleleFreq::zero(),
            r.wf(),
    {
        AlleleFreq { num: 0, den: 1 }
    }

    pub fn fixed() -> (r: AlleleFreq)
        ensures
            r == AlleleFreq::one(),
            r.wf(),
    {
        AlleleFreq { num: 1, den: 1 }
    }

    pub fn is_absent(self) -> (r: bool)
        requires
            self.wf(),
        ensures
            r == (self.value() == 0real),
    {
        proof {
            lemma_value_order(self, AlleleFreq::zero());
        }
        self.num == 0
    }

    /// The order of the frequencies as numbers.
    pub fn le(self, other: AlleleFreq) -> (r: bool)
        requires
            self.wf(),
            other.wf(),
        ensures
            r == (self.value() <= other.value()),
    {
        proof {
            lemma_value_order(self, other);
            assert(self.num * other.den <= u64::MAX && other.num * self.den <= u64::MAX)
                by (nonlinear_arith)
                requires
                    self.num <= u32::MAX,
                    other.den <= u32::MAX,
                    other.num <= u32::MAX,
                    self.den <= u32::MAX,
            ;
        }
        (self.num as u64) * (other.den as u64) <= (other.num as u64) * (self.den as u64)
    }

    pub fn lt(self, other: AlleleFreq) -> (r: bool)
        requires
            self.wf(),
            other.wf(),
        ensures
            r == (self.value() < other.value()),
    {
        !other.le(self)
    }

    /// Whether two frequencies are the same number, whatever their totals.
    pub fn same(self, other: AlleleFreq) -> (r: bool)
        requires
            self.wf(),
            other.wf(),
        ensures
            r == (self.value() == other.value()),
    {
        self.le(other) && other.le(self)
    }
}

/// The product of two counts, taken as a number, is the product of the
/// counts taken as numbers.
proof fn lemma_product_as_real(x: int, y: int)
    requires
        0 <= x,
    ensures
        (x * y) as real == x as real * y as real,
    decreases x,
{
    let yr = y as real;
    if x == 0 {
        assert(0 * y == 0);
        assert(0real * yr == 0real) by (nonlinear_arith);
    } else {
        lemma_product_as_real(x - 1, y);
        let xr = (x - 1) as real;
        assert(x * y == (x - 1) * y + y) by (nonlinear_arith);
        assert((xr + 1real) * yr == xr * yr + yr) by (nonlinear_arith);
        assert(x as real == xr + 1real);
    }
}

/// Two frequencies compare as their cross products do.
pub proof fn lemma_value_order(a: AlleleFreq, b: AlleleFreq)
    requires
        a.wf(),
        b.wf(),
    ensures
        a.value() <= b.value() <==> a.num * b.den <= b.num * a.den,
        a.value() < b.value() <==> a.num * b.den < b.num * a.den,
        a.value() == b.value() <==> a.num * b.den == b.num * a.den,
        0real <= a.value() <= 1real,
        a.value() == 0real <==> a.num == 0,
        a.value() == 1real <==> a.num == a.den,
{
    let (n1, d1, n2, d2) = (a.num as int, a.den as int, b.num as int, b.den as int);
    let (rn1, rd1, rn2, rd2) = (a.num as real, a.den as real, b.num as real, b.den as real);
    lemma_product_as_real(n1, d2);
    lemma_product_as_real(n2, d1);
    assert(rd1 > 0real && rd2 > 0real);
    assert((rn1 / rd1 <= rn2 / rd2) <==> (rn1 * rd2 <= rn2 * rd1)) by (nonlinear_arith)
        requires
            rd1 > 0real,
            rd2 > 0real,
    ;
    assert((rn1 / rd1 < rn2 / rd2) <==> (rn1 * rd2 < rn2 * rd1)) by (nonlinear_arith)
        requires
            rd1 > 0real,
            rd2 > 0real,
    ;
    assert(0real <= rn1 / rd1 <= 1real) by (nonlinear_arith)
        requires
            rd1 > 0real,
            0real <= rn1 <= rd1,
    ;
    assert((rn1 / rd1 == 0real) <==> (rn1 == 0real)) by (nonlinear_arith)
        requires
            rd1 > 0real,
    ;
    assert((rn1 / rd1 == 1real) <==> (rn1 == rd1)) by (nonlinear_arith)
        requires
            rd1 > 0real,
    ;
}

/// A finite, ordered set of allele frequencies: the spectrum that a sample
/// with whole genome copies can show.
#[derive(Clone, Debug, PartialEq, Eq)]
pub struct DiscreteAlleleFreqs {
    pub inner: Vec<AlleleFreq>,
}

impl View for DiscreteAlleleFreqs {
    type V = Seq<AlleleFreq>;

    open spec fn view(&self) -> Seq<AlleleFreq> {
        self.inner@
    }
}

/// Every member is a frequency, and they ascend strictly, so that none
/// occurs twice.
pub open spec fn ascending(s: Seq<AlleleFreq>) -> bool {
    &&& forall|i: int| 0 <= i < s.len() ==> (#[trigger] s[i]).wf()
    &&& forall|i: int, j: int|
        0 <= i < j < s.len() ==> (#[trigger] s[i]).value() < (#[trigger] s[j]).value()
}

/// The number `x` is a member of the spectrum.
pub open spec fn spectrum_contains(s: Seq<AlleleFreq>, x: real) -> bool {
    exists|i: int| 0 <= i < s.len() && (#[trigger] s[i]).value() == x
}

/// The frequencies `0/n, 1/n, .., n/n`.
pub open spec fn feasible_spectrum(n: nat) -> Seq<AlleleFreq> {
    Seq::new(n + 1, |k: int| AlleleFreq { num: k as u32, den: n as u32 })
}

/// The spectrum without the frequency zero, which can only come first.
pub open spec fn without_absent(s: Seq<AlleleFreq>) -> Seq<AlleleFreq> {
    if s.len() > 0 && s[0].num == 0 {
        s.skip(1)
    } else {
        s
    }
}

impl DiscreteAlleleFreqs {
    pub open spec fn wf(self) -> bool {
        ascending(self@)
    }

    pub open spec fn contains(self, x: real) -> bool {
        spectrum_contains(self@, x)
    }

    /// The frequencies that `ploidy * amplification` genome copies allow:
    /// each count of copies from none to all, over their number. An
    /// amplification of 1 stands for a locus that is there once, 2 for one
    /// that may be there twice, and so on. Fails when there is no copy, or
    /// more than can be counted.
    ///
    /// What comes out has one member more than there are copies, and 0
    /// and 1 are among them.
    pub fn feasible(ploidy: u32, amplification: u32) -> (r: Result<DiscreteAlleleFreqs, ModelError>)
        ensures
            r is Ok <==> 1 <= ploidy * amplification <= u32::MAX,
            r matches Ok(afs) ==> {
                &&& afs@ == feasible_spectrum((ploidy * amplification) as nat)
                &&& afs.wf()
                &&& afs@.len() == ploidy * amplification + 1
                &&& afs.contains(0real)
                &&& afs.contains(1real)
            },
            r matches Err(e) ==> e == (ModelError::InfeasibleAlleleFreqs { ploidy, amplification }),
    {
        proof {
            assert(ploidy * amplification <= u64::MAX) by (nonlinear_arith)
                requires
                    ploidy <= u32::MAX,
                    amplification <= u32::MAX,
            ;
        }
        let copies: u64 = (ploidy as u64) * (amplification as u64);
        if copies == 0 || copies > 0xFFFF_FFFF {
            return Err(ModelError::InfeasibleAlleleFreqs { ploidy, amplification });
        }
        let n: u32 = copies as u32;
        let mut inner: Vec<AlleleFreq> = Vec::new();
        let mut k: u32 = 0;
        while k < n
            invariant
                k <= n,
                inner@ == feasible_spectrum(n as nat).take(k as int),
            decreases n - k,
        {
            inner.push(AlleleFreq { num: k, den: n });
            k = k + 1;
        }
        inner.push(AlleleFreq { num: n, den: n });
        proof {
            assert(inner@ == feasible_spectrum(n as nat));
            lemma_feasible_ascending(n as nat);
            assert(inner@[0].value() == 0real);
            assert(inner@[n as int].value() == 1real);
        }
        Ok(DiscreteAlleleFreqs { inner })
    }

    /// The one frequency of an allele that is not there.
    pub fn absent() -> (r: DiscreteAlleleFreqs)
        ensures
            r@ == seq![AlleleFreq::zero()],
            r.wf(),
    {
        let mut inner: Vec<AlleleFreq> = Vec::new();
        inner.push(AlleleFreq { num: 0, den: 1 });
        proof {
            assert(inner@ == seq![AlleleFreq::zero()]);
        }
        DiscreteAlleleFreqs { inner }
    }

    /// The same spectrum without the frequency zero: of a well-formed
    /// spectrum, what is left holds every member but 0.
    pub fn not_absent(&self) -> (r: DiscreteAlleleFreqs)
        ensures
            r@ == without_absent(self@),
            self.wf() ==> r.wf(),
            self.wf() ==> forall|x: real| r.contains(x) <==> self.contains(x) && x != 0real,
    {
        let from: usize = if self.inner.len() > 0 && self.inner[0].num == 0 {
            1
        } else {
            0
        };
        let mut inner: Vec<AlleleFreq> = Vec::new();
        let mut i: usize = from;
        while i < self.inner.len()
            invariant
                from <= i <= self.inner.len(),
                inner@ == self.inner@.subrange(from as int, i as int),
            decreases self.inner.len() - i,
        {
            inner.push(self.inner[i]);
            i = i + 1;
        }
        proof {
            assert(inner@ == without_absent(self@));
            if self.wf() {
                lemma_without_absent(self@);
            }
        }
        DiscreteAlleleFreqs { inner }
    }

    pub fn is_wf(&self) -> (r: bool)
        ensures
            r == self.wf(),
    {
        let n = self.inner.len();
        let mut i: usize = 0;
        while i < n
            invariant
                i <= n,
                n == self@.len(),
                ascending(self@.take(i as int)),
            decreases n - i,
        {
            let af = self.inner[i];
            if !af.is_wf() {
                return false;
            }
            if i > 0 {
                proof {
                    assert(self@.take(i as int)[i - 1] == self@[i - 1]);
                }
                if !self.inner[i - 1].lt(af) {
                    return false;
                }
            }
            proof {
                let s = self@.take(i + 1);
                assert forall|a: int| 0 <= a < s.len() implies (#[trigger] s[a]).wf() by {
                    if a < i {
                        assert(self@.take(i as int)[a] == s[a]);
                    }
                }
                assert forall|a: int, b: int| 0 <= a < b < s.len() implies (#[trigger] s[a]).value() < (
                #[trigger] s[b]).value() by {
                    assert(self@.take(i as int)[a] == s[a]);
                    if b < i {
                        assert(self@.take(i as int)[b] == s[b]);
                    } else if a < i - 1 {
                        assert(self@.take(i as int)[i - 1] == s[i - 1]);
                    }
                }
            }
            i = i + 1;
        }
        proof {
            assert(self@.take(n as int) == self@);
        }
        true
    }

    /// Whether the frequency `af` is a member, as a number.
    pub fn includes(&self, af: AlleleFreq) -> (r: bool)
        requires
            self.wf(),
            af.wf(),
        ensures
            r == self.contains(af.value()),
    {
        let mut i: usize = 0;
        while i < self.inner.len()
            invariant
                i <= self.inner.len(),
                self.wf(),
                af.wf(),
                forall|k: int| 0 <= k < i ==> (#[trigger] self@[k]).value() != af.value(),
            decreases self.inner.len() - i,
        {
            if self.inner[i].same(af) {
                return true;
            }
            i = i + 1;
        }
        false
    }

    pub fn len(&self) -> (r: usize)
        ensures
            r == self@.len(),
    {
        self.inner.len()
    }

    pub fn get(&self, i: usize) -> (r: AlleleFreq)
        requires
            i < self@.len(),
        ensures
            r == self@[i as int],
    {
        self.inner[i]
    }
}

/// The feasible spectrum is an ordered set that starts at 0 and ends at 1.
pub proof fn lemma_feasible_ascending(n: nat)
    requires
        1 <= n <= u32::MAX,
    ensures
        ascending(feasible_spectrum(n)),
        feasible_spectrum(n).len() == n + 1,
        feasible_spectrum(n)[0].value() == 0real,
        feasible_spectrum(n)[n as int].value() == 1real,
{
    let s = feasible_spectrum(n);
    assert forall|i: int| 0 <= i < s.len() implies (#[trigger] s[i]).wf() by {}
    assert forall|i: int, j: int| 0 <= i < j < s.len() implies (#[trigger] s[i]).value() < (
    #[trigger] s[j]).value() by {
        lemma_value_order(s[i], s[j]);
        assert(i * n < j * n) by (nonlinear_arith)
            requires
                i < j,
                n >= 1,
        ;
    }
    lemma_value_order(s[0], s[0]);
    lemma_value_order(s[n as int], s[n as int]);
}

/// Dropping the leading zero of an ordered set removes the number 0 and
/// nothing else.
pub proof fn lemma_without_absent(s: Seq<AlleleFreq>)
    requires
        ascending(s),
    ensures
        ascending(without_absent(s)),
        forall|x: real|
            spectrum_contains(without_absent(s), x) <==> spectrum_contains(s, x) && x != 0real,
{
    let t = without_absent(s);
    let d: int = if s.len() > 0 && s[0].num == 0 { 1 } else { 0 };
    assert(forall|i: int| 0 <= i < t.len() ==> t[i] == s[i + d]);
    assert forall|i: int, j: int| 0 <= i < j < t.len() implies (#[trigger] t[i]).value() < (
    #[trigger] t[j]).value() by {
        assert(s[i + d].value() < s[j + d].value());
    }
    assert forall|x: real|
        spectrum_contains(t, x) <==> spectrum_contains(s, x) && x != 0real by {
        if spectrum_contains(t, x) {
            let i = choose|i: int| 0 <= i < t.len() && (#[trigger] t[i]).value() == x;
            assert(s[i + d].value() == x);
            lemma_value_order(s[0], s[0]);
            if d == 1 {
                assert(s[0].value() < s[i + d].value());
            } else if i > 0 {
                assert(s[0].value() < s[i].value());
            }
        }
        if spectrum_contains(s, x) && x != 0real {
            let i = choose|i: int| 0 <= i < s.len() && (#[trigger] s[i]).value() == x;
            lemma_value_order(s[i], s[i]);
            assert(i >= d);
            assert(t[i - d].value() == x);
        }
    }
}

/// An interval of allele frequencies, each end of which may belong to it
/// or not.
#[derive(Clone, Copy, Debug, PartialEq, Eq, Structural)]
pub struct ContinuousAlleleFreqs {
    pub start: AlleleFreq,
    pub end: AlleleFreq,
    pub left_exclusive: bool,
    pub right_exclusive: bool,
}

impl ContinuousAlleleFreqs {
    /// Both ends are frequencies and the interval does not run backwards.
    pub open spec fn wf(self) -> bool {
        self.start.wf() && self.end.wf() && self.start.value() <= self.end.value()
    }

    /// The number `x` lies in the interval.
    pub open spec fn contains(self, x: real) -> bool {
        &&& if self.left_exclusive {
            self.start.value() < x
        } else {
            self.start.value() <= x
        }
        &&& if self.right_exclusive {
            x < self.end.value()
        } else {
            x <= self.end.value()
        }
    }

    pub fn is_wf(&self) -> (r: bool)
        ensures
            r == self.wf(),
    {
        self.start.is_wf() && self.end.is_wf() && self.start.le(self.end)
    }

    /// The interval from `start` to `end`, both included.
    pub fn inclusive(start: AlleleFreq, end: AlleleFreq) -> (r: ContinuousAlleleFreqs)
        ensures
            r == (ContinuousAlleleFreqs { start, end, left_exclusive: false, right_exclusive: false }),
    {
        ContinuousAlleleFreqs { start, end, left_exclusive: false, right_exclusive: false }
    }

    /// The interval from `start` to `end` without its ends.
    pub fn exclusive(start: AlleleFreq, end: AlleleFreq) -> (r: ContinuousAlleleFreqs)
        ensures
            r == (ContinuousAlleleFreqs { start, end, left_exclusive: true, right_exclusive: true }),
    {
        ContinuousAlleleFreqs { start, end, left_exclusive: true, right_exclusive: true }
    }

    /// The interval from `start` to `end` without `start`.
    pub fn left_exclusive(start: AlleleFreq, end: AlleleFreq) -> (r: ContinuousAlleleFreqs)
        ensures
            r == (ContinuousAlleleFreqs { start, end, left_exclusive: true, right_exclusive: false }),
    {
        ContinuousAlleleFreqs { start, end, left_exclusive: true, right_exclusive: false }
    }

    /// The interval from `start` to `end` without `end`.
    pub fn right_exclusive(start: AlleleFreq, end: AlleleFreq) -> (r: ContinuousAlleleFreqs)
        ensures
            r == (ContinuousAlleleFreqs { start, end, left_exclusive: false, right_exclusive: true }),
    {
        ContinuousAlleleFreqs { start, end, left_exclusive: false, right_exclusive: true }
    }

    /// Whether the frequency `af` lies in the interval.
    pub fn includes(&self, af: AlleleFreq) -> (r: bool)
        requires
            self.wf(),
            af.wf(),
        ensures
            r == self.contains(af.value()),
    {
        let left = if self.left_exclusive {
            self.start.lt(af)
        } else {
            self.start.le(af)
        };
        let right = if self.right_exclusive {
            af.lt(self.end)
        } else {
            af.le(self.end)
        };
        left && right
    }

    /// Whether some number lies in both intervals.
    pub fn overlaps(&self, other: &ContinuousAlleleFreqs) -> (r: bool)
        requires
            self.wf(),
            other.wf(),
        ensures
            r == exists|x: real| self.contains(x) && other.contains(x),
    {
        // The later of the two starts and the earlier of the two ends
        // bound what the intervals share.
        let (lo, lo_exclusive) = if self.start.lt(other.start) {
            (other.start, other.left_exclusive)
        } else if other.start.lt(self.start) {
            (self.start, self.left_exclusive)
        } else {
            (self.start, self.left_exclusive || other.left_exclusive)
        };
        let (hi, hi_exclusive) = if self.end.lt(other.end) {
            (self.end, self.right_exclusive)
        } else if other.end.lt(self.end) {
            (other.end, other.right_exclusive)
        } else {
            (self.end, self.right_exclusive || other.right_exclusive)
        };
        let r = lo.lt(hi) || (lo.same(hi) && !lo_exclusive && !hi_exclusive);
        proof {
            if r {
                let x = (lo.value() + hi.value()) / 2real;
                assert(self.contains(x) && other.contains(x));
            } else {
                assert forall|x: real| !(self.contains(x) && other.contains(x)) by {}
            }
        }
        r
    }

    /// Whether no frequency lies in the interval.
    pub fn is_empty(&self) -> (r: bool)
        requires
            self.wf(),
        ensures
            r == (forall|x: real| !self.contains(x)),
    {
        let r = self.start.same(self.end) && (self.left_exclusive || self.right_exclusive);
        proof {
            if !r {
                let m = (self.start.value() + self.end.value()) / 2real;
                assert(self.contains(m));
            }
        }
        r
    }
}

} // verus!
