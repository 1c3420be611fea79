//! Deciding whether a set of events divides the joint allele-frequency
//! space.
//!
//! The space is taken column by column: a column holds the points with
//! one control frequency, and in it each event is an interval of case
//! frequencies, or nothing. The events divide the space when in every
//! column no two of them share a point and together they leave none out.
//! Where a complement event stands for whatever the others leave out,
//! only the first is asked.

use vstd::prelude::*;
use crate::allele_freq::{
    feasible_spectrum, lemma_value_order, spectrum_contains, AlleleFreq, DiscreteAlleleFreqs,
};
use crate::error::ConfigError;
use crate::event::{
    confined, covered_once, lemma_tumor_normal_partition, partitions, regions,
    tumor_normal_regions, PairEvent, PairRegion,
};

verus! {

/// Some event holds the point.
pub open spec fn covered(events: Seq<PairRegion>, case: real, control: real) -> bool {
    exists|k: int| 0 <= k < events.len() && (#[trigger] events[k]).contains(case, control)
}

/// The two events share a point of the column `control`.
pub open spec fn clash(a: PairRegion, b: PairRegion, control: real) -> bool {
    exists|case: real| a.contains(case, control) && b.contains(case, control)
}

/// No two events share a point of the column.
pub open spec fn column_exclusive(events: Seq<PairRegion>, control: real) -> bool {
    forall|i: int, j: int|
        0 <= i < j < events.len() ==> !clash(#[trigger] events[i], #[trigger] events[j], control)
}

/// No point of the column is left out.
pub open spec fn column_exhaustive(events: Seq<PairRegion>, control: real) -> bool {
    forall|case: real| 0real <= case <= 1real ==> #[trigger] covered(events, case, control)
}

/// No point of the space lies in two events.
pub open spec fn exclusive(events: Seq<PairRegion>, control_space: Seq<AlleleFreq>) -> bool {
    forall|control: real| #[trigger]
        spectrum_contains(control_space, control) ==> column_exclusive(events, control)
}

/// Every point of the space lies in some event.
pub open spec fn exhaustive(events: Seq<PairRegion>, control_space: Seq<AlleleFreq>) -> bool {
    forall|control: real| #[trigger]
        spectrum_contains(control_space, control) ==> column_exhaustive(events, control)
}

/// Every event is well formed.
pub open spec fn all_wf(events: Seq<PairRegion>) -> bool {
    forall|k: int| 0 <= k < events.len() ==> (#[trigger] events[k]).wf()
}

/// What is wrong with a set of events, if anything is: an event that
/// reaches beyond the space; else two events that share a point; else,
/// unless a complement event takes the rest, a point that is left out.
pub open spec fn partition_error(
    events: Seq<PairRegion>,
    control_space: Seq<AlleleFreq>,
    has_complement: bool,
) -> Option<ConfigError> {
    if !confined(events, control_space) {
        Some(ConfigError::StrayEvent)
    } else if !exclusive(events, control_space) {
        Some(ConfigError::OverlappingEvents)
    } else if !has_complement && !exhaustive(events, control_space) {
        Some(ConfigError::IncompleteEvents)
    } else {
        None
    }
}

/// Events divide the space exactly when they keep to it, share no point
/// of it and leave none of it out.
pub proof fn lemma_partition_by_columns(events: Seq<PairRegion>, control_space: Seq<AlleleFreq>)
    requires
        all_wf(events),
    ensures
        partitions(events, control_space) <==> confined(events, control_space) && exclusive(
            events,
            control_space,
        ) && exhaustive(events, control_space),
        partitions(events, control_space) <==> partition_error(events, control_space, false)
            is None,
{
    if confined(events, control_space) && exclusive(events, control_space) && exhaustive(
        events,
        control_space,
    ) {
        assert forall|case: real, control: real|
            0real <= case <= 1real && #[trigger] spectrum_contains(
                control_space,
                control,
            ) implies #[trigger] covered_once(events, case, control) by {
            assert(column_exhaustive(events, control));
            assert(column_exclusive(events, control));
            assert(covered(events, case, control));
            let k = choose|k: int|
                0 <= k < events.len() && (#[trigger] events[k]).contains(case, control);
            assert forall|j: int|
                0 <= j < events.len() && (#[trigger] events[j]).contains(
                    case,
                    control,
                ) implies j == k by {
                if j < k {
                    assert(clash(events[j], events[k], control));
                }
                if k < j {
                    assert(clash(events[k], events[j], control));
                }
            }
        }
    }
    if partitions(events, control_space) {
        assert forall|control: real| #[trigger]
            spectrum_contains(control_space, control) implies column_exclusive(
            events,
            control,
        ) && column_exhaustive(events, control) by {
            assert forall|i: int, j: int| 0 <= i < j < events.len() implies !clash(
                #[trigger] events[i],
                #[trigger] events[j],
                control,
            ) by {
                if clash(events[i], events[j], control) {
                    let case = choose|case: real|
                        events[i].contains(case, control) && events[j].contains(case, control);
                    assert(events[i].wf());
                    lemma_value_order(events[i].af_case.start, events[i].af_case.end);
                    lemma_value_order(events[i].af_case.end, events[i].af_case.start);
                    assert(0real <= case <= 1real);
                    assert(covered_once(events, case, control));
                }
            }
            assert forall|case: real| 0real <= case <= 1real implies #[trigger] covered(
                events,
                case,
                control,
            ) by {
                assert(covered_once(events, case, control));
            }
        }
    }
}

/// Nothing is wrong with the events of a tumor and its normal: they pass
/// the check against the normal sample's feasible allele frequencies,
/// with a complement event or without.
pub proof fn lemma_tumor_normal_events_pass(n: nat, has_complement: bool)
    requires
        1 <= n <= u32::MAX,
    ensures
        all_wf(tumor_normal_regions(n)),
        partition_error(tumor_normal_regions(n), feasible_spectrum(n), has_complement) is None,
{
    lemma_tumor_normal_partition(n);
    lemma_partition_by_columns(tumor_normal_regions(n), feasible_spectrum(n));
}

/// Some start of an interval lies beyond `p`, or none does: either way a
/// bound beyond `p` exists that no such start comes before.
proof fn lemma_room_beyond(events: Seq<PairRegion>, p: real, n: int) -> (b: real)
    requires
        0 <= n <= events.len(),
        p < 1real,
    ensures
        p < b <= 1real,
        forall|k: int|
            0 <= k < n && (#[trigger] events[k]).af_case.start.value() > p
                ==> events[k].af_case.start.value() >= b,
    decreases n,
{
    if n == 0 {
        1real
    } else {
        let b = lemma_room_beyond(events, p, n - 1);
        let s = events[n - 1].af_case.start.value();
        if s > p && s < b {
            s
        } else {
            b
        }
    }
}

/// Whether no two events share a point of the column of `control`.
pub fn exclusive_in_column(events: &Vec<PairEvent>, control: AlleleFreq) -> (r: bool)
    requires
        all_wf(regions(events@)),
        control.wf(),
    ensures
        r == column_exclusive(regions(events@), control.value()),
{
    let n = events.len();
    let ghost rs = regions(events@);
    let ghost c = control.value();
    proof {
        assert(forall|k: int| 0 <= k < n ==> rs[k] == (#[trigger] events@[k])@);
    }
    let mut i: usize = 0;
    while i < n
        invariant
            i <= n,
            n == events.len(),
            rs == regions(events@),
            rs.len() == n,
            c == control.value(),
            control.wf(),
            all_wf(rs),
            forall|k: int| 0 <= k < n ==> rs[k] == (#[trigger] events@[k])@,
            forall|a: int, b: int| 0 <= a < i && a < b < n ==> !clash(rs[a], rs[b], c),
        decreases n - i,
    {
        proof {
            assert(rs[i as int].wf());
        }
        if events[i].af_control.includes(control) {
            let mut j: usize = i + 1;
            while j < n
                invariant
                    i < j <= n,
                    n == events.len(),
                    rs == regions(events@),
                    rs.len() == n,
                    c == control.value(),
                    control.wf(),
                    all_wf(rs),
                    forall|k: int| 0 <= k < n ==> rs[k] == (#[trigger] events@[k])@,
                    spectrum_contains(rs[i as int].af_control, c),
                    forall|b: int| i < b < j ==> !clash(rs[i as int], rs[b], c),
                decreases n - j,
            {
                proof {
                    assert(rs[j as int].wf());
                    assert(rs[i as int].wf());
                }
                if events[j].af_control.includes(control) && events[i].af_case.overlaps(
                    &events[j].af_case,
                ) {
                    proof {
                        let x = choose|x: real|
                            events[i as int].af_case.contains(x) && events[j as int].af_case.contains(
                                x,
                            );
                        assert(rs[i as int].contains(x, c) && rs[j as int].contains(x, c));
                        assert(clash(rs[i as int], rs[j as int], c));
                    }
                    return false;
                }
                j = j + 1;
            }
        }
        i = i + 1;
    }
    true
}

/// Whether the events leave no point of the column of `control` out.
///
/// The column is walked from 0: what is covered so far ends at a
/// frontier, and an event that goes on from there moves the frontier to
/// its own end. The walk stops at 1, or where no event goes on.
pub fn exhaustive_in_column(events: &Vec<PairEvent>, control: AlleleFreq) -> (r: bool)
    requires
        all_wf(regions(events@)),
        control.wf(),
    ensures
        r == column_exhaustive(regions(events@), control.value()),
{
    let n = events.len();
    let ghost rs = regions(events@);
    let ghost c = control.value();
    // All below the frontier is covered; `closed` tells whether the
    // frontier itself is.
    let mut frontier = AlleleFreq::absent();
    let mut closed = false;
    // The events that have not moved the frontier yet.
    let ghost mut unused: Set<int> = Set::new(|k: int| 0 <= k < n);
    proof {
        assert(forall|k: int| 0 <= k < n ==> rs[k] == (#[trigger] events@[k])@);
        vstd::set_lib::lemma_int_range(0, n as int);
        assert(unused =~= vstd::set_lib::set_int_range(0, n as int));
        lemma_value_order(frontier, frontier);
    }
    loop
        invariant
            n == events.len(),
            rs == regions(events@),
            rs.len() == n,
            c == control.value(),
            control.wf(),
            all_wf(rs),
            frontier.wf(),
            unused.finite(),
            forall|k: int| 0 <= k < n ==> rs[k] == (#[trigger] events@[k])@,
            forall|x: real| 0real <= x < frontier.value() ==> #[trigger] covered(rs, x, c),
            closed ==> covered(rs, frontier.value(), c),
            forall|k: int|
                0 <= k < n && !unused.contains(k) ==> (#[trigger] rs[k]).af_case.end.value()
                    <= frontier.value(),
            !closed ==> forall|k: int|
                0 <= k < n && !unused.contains(k) ==> !(#[trigger] rs[k]).af_case.contains(
                    frontier.value(),
                ),
        decreases unused.len(),
    {
        proof {
            lemma_value_order(frontier, AlleleFreq::one());
            lemma_value_order(AlleleFreq::one(), frontier);
        }
        if closed && frontier.same(AlleleFreq::fixed()) {
            proof {
                assert forall|x: real| 0real <= x <= 1real implies #[trigger] covered(
                    rs,
                    x,
                    c,
                ) by {}
            }
            return true;
        }
        // Look for an event that goes on from the frontier.
        let mut k: usize = 0;
        let mut found: Option<usize> = None;
        while k < n && found.is_none()
            invariant
                k <= n,
                n == events.len(),
                rs == regions(events@),
                rs.len() == n,
                c == control.value(),
                control.wf(),
                all_wf(rs),
                frontier.wf(),
                forall|j: int| 0 <= j < n ==> rs[j] == (#[trigger] events@[j])@,
                found matches Some(f) ==> f < n && goes_on(rs[f as int], frontier.value(), closed, c),
                found is None ==> forall|j: int|
                    0 <= j < k ==> !goes_on(#[trigger] rs[j], frontier.value(), closed, c),
            decreases n - k + (if found is None { 1int } else { 0int }),
        {
            proof {
                assert(rs[k as int].wf());
            }
            let event = &events[k];
            let here = if closed {
                event.af_case.start.le(frontier) && frontier.lt(event.af_case.end)
            } else {
                event.af_case.includes(frontier)
            };
            if here && event.af_control.includes(control) {
                found = Some(k);
            } else {
                k = k + 1;
            }
        }
        match found {
            None => {
                proof {
                    let p = frontier.value();
                    if !closed {
                        assert(!covered(rs, p, c));
                    } else {
                        let b = lemma_room_beyond(rs, p, n as int);
                        let x = (p + b) / 2real;
                        assert forall|j: int| 0 <= j < n implies !(#[trigger] rs[j]).contains(
                            x,
                            c,
                        ) by {
                            assert(!goes_on(rs[j], p, closed, c));
                        }
                        assert(!covered(rs, x, c));
                        assert(0real <= x <= 1real);
                    }
                }
                return false;
            },
            Some(f) => {
                let event = &events[f];
                proof {
                    let p = frontier.value();
                    let e = rs[f as int];
                    assert(e.wf());
                    assert(goes_on(e, p, closed, c));
                    assert(unused.contains(f as int));
                    let q = e.af_case.end.value();
                    assert forall|x: real| 0real <= x < q implies #[trigger] covered(rs, x, c) by {
                        if x >= p {
                            if closed && x == p {
                            } else {
                                assert(e.contains(x, c));
                            }
                        }
                    }
                    if !e.af_case.right_exclusive {
                        assert(e.contains(q, c));
                    }
                    unused = unused.remove(f as int);
                }
                frontier = event.af_case.end;
                closed = !event.af_case.right_exclusive;
            },
        }
    }
}

/// The event covers the column from the frontier on: the frontier itself
/// where that is not covered yet, else whatever comes right after it.
pub open spec fn goes_on(event: PairRegion, frontier: real, closed: bool, control: real) -> bool {
    &&& spectrum_contains(event.af_control, control)
    &&& if closed {
        event.af_case.start.value() <= frontier < event.af_case.end.value()
    } else {
        event.af_case.contains(frontier)
    }
}

/// Whether no event has a control frequency that the space has not.
pub fn confined_to(events: &Vec<PairEvent>, control_space: &DiscreteAlleleFreqs) -> (r: bool)
    requires
        all_wf(regions(events@)),
        control_space.wf(),
    ensures
        r == confined(regions(events@), control_space@),
{
    let n = events.len();
    let ghost rs = regions(events@);
    proof {
        assert(forall|k: int| 0 <= k < n ==> rs[k] == (#[trigger] events@[k])@);
    }
    let mut i: usize = 0;
    while i < n
        invariant
            i <= n,
            n == events.len(),
            rs == regions(events@),
            rs.len() == n,
            all_wf(rs),
            control_space.wf(),
            forall|k: int| 0 <= k < n ==> rs[k] == (#[trigger] events@[k])@,
            forall|a: int, x: real|
                0 <= a < i && #[trigger] spectrum_contains(rs[a].af_control, x)
                    ==> spectrum_contains(control_space@, x),
        decreases n - i,
    {
        proof {
            assert(rs[i as int].wf());
        }
        let members = &events[i].af_control;
        let mut j: usize = 0;
        while j < members.len()
            invariant
                j <= members@.len(),
                i < n,
                rs == regions(events@),
                rs.len() == n,
                members.wf(),
                members@ == rs[i as int].af_control,
                control_space.wf(),
                forall|b: int|
                    0 <= b < j ==> spectrum_contains(control_space@, (#[trigger] members@[b]).value()),
            decreases members@.len() - j,
        {
            if !control_space.includes(members.get(j)) {
                proof {
                    let x = members@[j as int].value();
                    assert(spectrum_contains(rs[i as int].af_control, x));
                }
                return false;
            }
            j = j + 1;
        }
        proof {
            assert forall|x: real| #[trigger]
                spectrum_contains(rs[i as int].af_control, x) implies spectrum_contains(
                control_space@,
                x,
            ) by {
                let b = choose|b: int| 0 <= b < members@.len() && (#[trigger] members@[b]).value() == x;
                assert(spectrum_contains(control_space@, members@[b].value()));
            }
        }
        i = i + 1;
    }
    true
}

/// Whether every event is well formed.
pub fn all_well_formed(events: &Vec<PairEvent>) -> (r: bool)
    ensures
        r == all_wf(regions(events@)),
{
    let ghost rs = regions(events@);
    proof {
        assert(forall|k: int| 0 <= k < events.len() ==> rs[k] == (#[trigger] events@[k])@);
    }
    let mut i: usize = 0;
    while i < events.len()
        invariant
            i <= events.len(),
            rs == regions(events@),
            rs.len() == events.len(),
            forall|k: int| 0 <= k < events.len() ==> rs[k] == (#[trigger] events@[k])@,
            forall|k: int| 0 <= k < i ==> (#[trigger] rs[k]).wf(),
        decreases events.len() - i,
    {
        if !events[i].is_wf() {
            proof {
                assert(!rs[i as int].wf());
            }
            return false;
        }
        i = i + 1;
    }
    true
}

/// Checks a set of events as it comes, from a configuration say: that
/// the events and the space are well formed, and then that the events
/// divide the space, as [`check_partition`] does.
pub fn check_events(
    events: &Vec<PairEvent>,
    control_space: &DiscreteAlleleFreqs,
    has_complement: bool,
) -> (r: Result<(), ConfigError>)
    ensures
        r == if !all_wf(regions(events@)) || !control_space.wf() {
            Err::<(), ConfigError>(ConfigError::MalformedEvent)
        } else {
            match partition_error(regions(events@), control_space@, has_complement) {
                Some(e) => Err::<(), ConfigError>(e),
                None => Ok(()),
            }
        },
        !has_complement ==> (r is Ok <==> all_wf(regions(events@)) && control_space.wf()
            && partitions(regions(events@), control_space@)),
{
    if !all_well_formed(events) || !control_space.is_wf() {
        return Err(ConfigError::MalformedEvent);
    }
    check_partition(events, control_space, has_complement)
}

/// Checks that the events divide the joint space of case frequencies
/// from 0 to 1 and the control frequencies of `control_space`. With
/// `has_complement`, a complement event is understood to hold whatever
/// the listed events leave out, so that they may leave points out.
pub fn check_partition(
    events: &Vec<PairEvent>,
    control_space: &DiscreteAlleleFreqs,
    has_complement: bool,
) -> (r: Result<(), ConfigError>)
    requires
        all_wf(regions(events@)),
        control_space.wf(),
    ensures
        r == match partition_error(regions(events@), control_space@, has_complement) {
            Some(e) => Err::<(), ConfigError>(e),
            None => Ok(()),
        },
        !has_complement ==> (r is Ok <==> partitions(regions(events@), control_space@)),
{
    let ghost rs = regions(events@);
    proof {
        lemma_partition_by_columns(rs, control_space@);
    }
    if !confined_to(events, control_space) {
        return Err(ConfigError::StrayEvent);
    }
    let mut i: usize = 0;
    while i < control_space.len()
        invariant
            i <= control_space@.len(),
            rs == regions(events@),
            all_wf(rs),
            control_space.wf(),
            confined(rs, control_space@),
            forall|k: int| 0 <= k < i ==> column_exclusive(rs, (#[trigger] control_space@[k]).value()),
        decreases control_space@.len() - i,
    {
        if !exclusive_in_column(events, control_space.get(i)) {
            proof {
                assert(spectrum_contains(control_space@, control_space@[i as int].value()));
                lemma_partition_by_columns(rs, control_space@);
            }
            return Err(ConfigError::OverlappingEvents);
        }
        i = i + 1;
    }
    proof {
        assert forall|control: real| #[trigger]
            spectrum_contains(control_space@, control) implies column_exclusive(rs, control) by {
            let k = choose|k: int|
                0 <= k < control_space@.len() && (#[trigger] control_space@[k]).value() == control;
            assert(column_exclusive(rs, control_space@[k].value()));
        }
    }
    if has_complement {
        return Ok(());
    }
    let mut i: usize = 0;
    while i < control_space.len()
        invariant
            i <= control_space@.len(),
            rs == regions(events@),
            all_wf(rs),
            control_space.wf(),
            !has_complement,
            confined(rs, control_space@),
            exclusive(rs, control_space@),
            forall|k: int| 0 <= k < i ==> column_exhaustive(rs, (#[trigger] control_space@[k]).value()),
        decreases control_space@.len() - i,
    {
        if !exhaustive_in_column(events, control_space.get(i)) {
            proof {
                assert(spectrum_contains(control_space@, control_space@[i as int].value()));
                lemma_partition_by_columns(rs, control_space@);
            }
            return Err(ConfigError::IncompleteEvents);
        }
        i = i + 1;
    }
    proof {
        assert forall|control: real| #[trigger]
            spectrum_contains(control_space@, control) implies column_exhaustive(rs, control) by {
            let k = choose|k: int|
                0 <= k < control_space@.len() && (#[trigger] control_space@[k]).value() == control;
            assert(column_exhaustive(rs, control_space@[k].value()));
        }
    }
    Ok(())
}

} // verus!
