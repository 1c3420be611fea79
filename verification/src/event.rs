//! Events: named regions of the joint allele-frequency space of a case and
//! a control sample.
//!
//! The case sample's frequency is any number from 0 to 1; the control
//! sample's is a member of a finite spectrum. A set of events is fit for
//! calling when every point of that space lies in exactly one of them.

use vstd::prelude::*;
use crate::allele_freq::{
    ascending, feasible_spectrum, lemma_feasible_ascending, lemma_value_order,
    lemma_without_absent, spectrum_contains, without_absent, AlleleFreq, ContinuousAlleleFreqs,
    DiscreteAlleleFreqs,
};
use crate::error::ModelError;

verus! {

/// An event of a pair of samples: the case sample's allele frequency lies
/// in `af_case` and the control sample's is a member of `af_control`.
#[derive(Clone, Debug, PartialEq, Eq)]
pub struct PairEvent {
    pub name: String,
    pub af_case: ContinuousAlleleFreqs,
    pub af_control: DiscreteAlleleFreqs,
}

/// What an event is, apart from how it is stored.
pub struct PairRegion {
    pub name: Seq<char>,
    pub af_case: ContinuousAlleleFreqs,
    pub af_control: Seq<AlleleFreq>,
}

impl View for PairEvent {
    type V = PairRegion;

    open spec fn view(&self) -> PairRegion {
        PairRegion { name: self.name@, af_case: self.af_case, af_control: self.af_control@ }
    }
}

impl PairRegion {
    pub open spec fn wf(self) -> bool {
        self.af_case.wf() && ascending(self.af_control)
    }

    /// The point with case frequency `case` and control frequency
    /// `control` belongs to the event.
    pub open spec fn contains(self, case: real, control: real) -> bool {
        self.af_case.contains(case) && spectrum_contains(self.af_control, control)
    }
}

/// The regions of a list of events, in its order.
pub open spec fn regions(events: Seq<PairEvent>) -> Seq<PairRegion> {
    events.map_values(|e: PairEvent| e@)
}

/// The point lies in exactly one of the events.
pub open spec fn covered_once(events: Seq<PairRegion>, case: real, control: real) -> bool {
    exists|i: int|
        {
            &&& 0 <= i < events.len()
            &&& (#[trigger] events[i]).contains(case, control)
            &&& forall|j: int|
                0 <= j < events.len() && (#[trigger] events[j]).contains(case, control) ==> j == i
        }
}

/// No event has a control frequency that the space has not.
pub open spec fn confined(events: Seq<PairRegion>, control_space: Seq<AlleleFreq>) -> bool {
    forall|i: int, control: real|
        0 <= i < events.len() && #[trigger] spectrum_contains(events[i].af_control, control)
            ==> spectrum_contains(control_space, control)
}

/// The events divide the joint space among them: every case frequency
/// from 0 to 1, with every control frequency of the spectrum, lies in
/// exactly one event, and no event reaches beyond the spectrum.
pub open spec fn partitions(events: Seq<PairRegion>, control_space: Seq<AlleleFreq>) -> bool {
    &&& forall|case: real, control: real|
        0real <= case <= 1real && #[trigger] spectrum_contains(control_space, control)
            ==> #[trigger] covered_once(events, case, control)
    &&& confined(events, control_space)
}

/// The three events of a tumor called against its normal, for `n` genome
/// copies in the normal sample.
///
/// * germline: the normal sample carries the variant, whatever the tumor
///   shows;
/// * somatic: only the tumor carries it;
/// * absent: neither does.
pub open spec fn tumor_normal_regions(n: nat) -> Seq<PairRegion> {
    seq![
        PairRegion {
            name: "germline"@,
            af_case: ContinuousAlleleFreqs {
                start: AlleleFreq::zero(),
                end: AlleleFreq::one(),
                left_exclusive: false,
                right_exclusive: false,
            },
            af_control: without_absent(feasible_spectrum(n)),
        },
        PairRegion {
            name: "somatic"@,
            af_case: ContinuousAlleleFreqs {
                start: AlleleFreq::zero(),
                end: AlleleFreq::one(),
                left_exclusive: true,
                right_exclusive: false,
            },
            af_control: seq![AlleleFreq::zero()],
        },
        PairRegion {
            name: "absent"@,
            af_case: ContinuousAlleleFreqs {
                start: AlleleFreq::zero(),
                end: AlleleFreq::zero(),
                left_exclusive: false,
                right_exclusive: false,
            },
            af_control: seq![AlleleFreq::zero()],
        },
    ]
}

impl PairEvent {
    pub open spec fn wf(self) -> bool {
        self@.wf()
    }

    pub fn is_wf(&self) -> (r: bool)
        ensures
            r == self.wf(),
    {
        self.af_case.is_wf() && self.af_control.is_wf()
    }

    pub fn name(&self) -> (r: &str)
        ensures
            r@ == self@.name,
    {
        self.name.as_str()
    }

    /// Whether the point with the case frequency `case` and the control
    /// frequency `control` belongs to the event.
    pub fn includes(&self, case: AlleleFreq, control: AlleleFreq) -> (r: bool)
        requires
            self.wf(),
            case.wf(),
            control.wf(),
        ensures
            r == self@.contains(case.value(), control.value()),
    {
        self.af_case.includes(case) && self.af_control.includes(control)
    }

    /// The events germline, somatic and absent, in that order, for a
    /// normal sample of the given ploidy at a locus that is not amplified.
    /// They divide the joint space of the tumor's allele frequencies and
    /// the normal sample's feasible ones. Fails when the ploidy is zero.
    pub fn tumor_normal(ploidy: u32) -> (r: Result<Vec<PairEvent>, ModelError>)
        ensures
            r is Ok <==> ploidy >= 1,
            r matches Ok(events) ==> events@.len() == 3 && regions(events@) == tumor_normal_regions(
                ploidy as nat,
            ) && partitions(regions(events@), feasible_spectrum(ploidy as nat)),
            r matches Err(e) ==> e == (ModelError::InfeasibleAlleleFreqs {
                ploidy,
                amplification: 1,
            }),
    {
        let feasible = match DiscreteAlleleFreqs::feasible(ploidy, 1) {
            Ok(afs) => afs,
            Err(e) => {
                return Err(e);
            },
        };
        let germline = PairEvent {
            name: "germline".to_owned(),
            af_case: ContinuousAlleleFreqs::inclusive(AlleleFreq::absent(), AlleleFreq::fixed()),
            af_control: feasible.not_absent(),
        };
        let somatic = PairEvent {
            name: "somatic".to_owned(),
            af_case: ContinuousAlleleFreqs::left_exclusive(
                AlleleFreq::absent(),
                AlleleFreq::fixed(),
            ),
            af_control: DiscreteAlleleFreqs::absent(),
        };
        let absent = PairEvent {
            name: "absent".to_owned(),
            af_case: ContinuousAlleleFreqs::inclusive(AlleleFreq::absent(), AlleleFreq::absent()),
            af_control: DiscreteAlleleFreqs::absent(),
        };
        let mut events: Vec<PairEvent> = Vec::new();
        events.push(germline);
        events.push(somatic);
        events.push(absent);
        proof {
            assert(regions(events@) =~= tumor_normal_regions(ploidy as nat));
            lemma_tumor_normal_partition(ploidy as nat);
        }
        Ok(events)
    }
}

/// Germline, somatic and absent leave no point of the joint space out and
/// share none: whatever the tumor's allele frequency and whichever
/// feasible frequency the normal sample has, exactly one of the three
/// holds.
pub proof fn lemma_tumor_normal_partition(n: nat)
    requires
        1 <= n <= u32::MAX,
    ensures
        partitions(tumor_normal_regions(n), feasible_spectrum(n)),
        forall|i: int| 0 <= i < 3 ==> (#[trigger] tumor_normal_regions(n)[i]).wf(),
{
    let events = tumor_normal_regions(n);
    let space = feasible_spectrum(n);
    let zero = AlleleFreq::zero();
    let one = AlleleFreq::one();
    lemma_feasible_ascending(n);
    lemma_without_absent(space);
    lemma_value_order(zero, one);
    lemma_value_order(one, zero);
    assert(zero.value() == 0real);
    assert(one.value() == 1real);
    assert(seq![zero][0] == zero);
    assert(forall|x: real| spectrum_contains(seq![zero], x) <==> x == 0real) by {
        assert(seq![zero].len() == 1);
        assert(seq![zero][0].value() == 0real);
    }
    assert(spectrum_contains(space, 0real)) by {
        assert(space[0].value() == 0real);
    }
    assert forall|case: real, control: real|
        0real <= case <= 1real && #[trigger] spectrum_contains(space, control) implies #[trigger] covered_once(
        events,
        case,
        control,
    ) by {
        let which: int = if control != 0real {
            0
        } else if case != 0real {
            1
        } else {
            2
        };
        assert(events[which].contains(case, control));
        assert forall|j: int|
            0 <= j < events.len() && (#[trigger] events[j]).contains(case, control) implies j
            == which by {}
    }
    assert forall|i: int, control: real|
        0 <= i < events.len() && #[trigger] spectrum_contains(
            events[i].af_control,
            control,
        ) implies spectrum_contains(space, control) by {}
    assert forall|i: int| 0 <= i < 3 implies (#[trigger] tumor_normal_regions(n)[i]).wf() by {
        assert(ascending(seq![zero]));
    }
}

} // verus!
