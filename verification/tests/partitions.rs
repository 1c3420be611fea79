use prosic::allele_freq::{AlleleFreq, ContinuousAlleleFreqs, DiscreteAlleleFreqs};
use prosic::error::ConfigError;
use prosic::event::PairEvent;
use prosic::partition::{
    all_well_formed, check_events, check_partition, confined_to, exclusive_in_column,
    exhaustive_in_column,
};

fn af(num: u32, den: u32) -> AlleleFreq {
    AlleleFreq::new(num, den).unwrap()
}

fn event(name: &str, af_case: ContinuousAlleleFreqs, control: &[AlleleFreq]) -> PairEvent {
    PairEvent {
        name: name.to_owned(),
        af_case,
        af_control: DiscreteAlleleFreqs { inner: control.to_vec() },
    }
}

fn whole() -> ContinuousAlleleFreqs {
    ContinuousAlleleFreqs::inclusive(af(0, 1), af(1, 1))
}

#[test]
fn tumor_normal_events_divide_the_space() {
    for ploidy in 1..6u32 {
        let events = PairEvent::tumor_normal(ploidy).unwrap();
        let space = DiscreteAlleleFreqs::feasible(ploidy, 1).unwrap();
        assert_eq!(check_partition(&events, &space, false), Ok(()));
        assert_eq!(check_partition(&events, &space, true), Ok(()));
    }
}

#[test]
fn a_missing_event_leaves_points_out() {
    let space = DiscreteAlleleFreqs::feasible(2, 1).unwrap();
    for missing in 0..3usize {
        let mut events = PairEvent::tumor_normal(2).unwrap();
        events.remove(missing);
        assert_eq!(check_partition(&events, &space, false), Err(ConfigError::IncompleteEvents));
        assert_eq!(check_partition(&events, &space, true), Ok(()));
    }
    assert_eq!(check_partition(&vec![], &space, false), Err(ConfigError::IncompleteEvents));
    assert_eq!(check_partition(&vec![], &space, true), Ok(()));
}

#[test]
fn nothing_is_left_out_of_an_empty_space() {
    let space = DiscreteAlleleFreqs { inner: vec![] };
    assert_eq!(check_partition(&vec![], &space, false), Ok(()));
}

#[test]
fn a_repeated_event_overlaps() {
    let space = DiscreteAlleleFreqs::feasible(2, 1).unwrap();
    for repeated in 0..3usize {
        let mut events = PairEvent::tumor_normal(2).unwrap();
        let again = events[repeated].clone();
        events.push(again);
        assert_eq!(check_partition(&events, &space, false), Err(ConfigError::OverlappingEvents));
        assert_eq!(check_partition(&events, &space, true), Err(ConfigError::OverlappingEvents));
    }
}

#[test]
fn an_inclusive_somatic_event_overlaps_absent() {
    let space = DiscreteAlleleFreqs::feasible(2, 1).unwrap();
    let mut events = PairEvent::tumor_normal(2).unwrap();
    events[1].af_case = whole();
    assert_eq!(check_partition(&events, &space, false), Err(ConfigError::OverlappingEvents));
}

#[test]
fn a_control_frequency_outside_the_space_is_stray() {
    let space = DiscreteAlleleFreqs::feasible(2, 1).unwrap();
    let mut events = PairEvent::tumor_normal(2).unwrap();
    events.push(event("third", whole(), &[af(1, 3)]));
    assert!(!confined_to(&events, &space));
    assert_eq!(check_partition(&events, &space, false), Err(ConfigError::StrayEvent));
    assert_eq!(check_partition(&events, &space, true), Err(ConfigError::StrayEvent));
    let narrow = DiscreteAlleleFreqs::absent();
    let events = PairEvent::tumor_normal(2).unwrap();
    assert_eq!(check_partition(&events, &narrow, false), Err(ConfigError::StrayEvent));
    assert!(confined_to(&events, &DiscreteAlleleFreqs::feasible(4, 1).unwrap()));
}

#[test]
fn a_wider_space_is_not_covered() {
    let events = PairEvent::tumor_normal(2).unwrap();
    let space = DiscreteAlleleFreqs::feasible(4, 1).unwrap();
    assert_eq!(check_partition(&events, &space, false), Err(ConfigError::IncompleteEvents));
    assert_eq!(check_partition(&events, &space, true), Ok(()));
}

#[test]
fn a_single_point_can_be_left_out() {
    let zero = [af(0, 1)];
    let space = DiscreteAlleleFreqs::absent();
    let lower = event("lower", ContinuousAlleleFreqs::right_exclusive(af(0, 1), af(1, 2)), &zero);
    let upper = event("upper", ContinuousAlleleFreqs::left_exclusive(af(1, 2), af(1, 1)), &zero);
    let point = event("point", ContinuousAlleleFreqs::inclusive(af(2, 4), af(1, 2)), &zero);
    let events = vec![upper.clone(), lower.clone()];
    assert!(exclusive_in_column(&events, af(0, 1)));
    assert!(!exhaustive_in_column(&events, af(0, 1)));
    assert_eq!(check_partition(&events, &space, false), Err(ConfigError::IncompleteEvents));
    let events = vec![upper, point, lower];
    assert!(exclusive_in_column(&events, af(0, 1)));
    assert!(exhaustive_in_column(&events, af(0, 1)));
    assert_eq!(check_partition(&events, &space, false), Ok(()));
}

#[test]
fn the_ends_of_the_unit_interval_must_be_covered() {
    let zero = [af(0, 1)];
    let space = DiscreteAlleleFreqs::absent();
    let open = vec![event("open", ContinuousAlleleFreqs::exclusive(af(0, 1), af(1, 1)), &zero)];
    assert!(!exhaustive_in_column(&open, af(0, 1)));
    let left = vec![event("left", ContinuousAlleleFreqs::left_exclusive(af(0, 1), af(1, 1)), &zero)];
    assert!(!exhaustive_in_column(&left, af(0, 1)));
    let right = vec![event("right", ContinuousAlleleFreqs::right_exclusive(af(0, 1), af(1, 1)), &zero)];
    assert!(!exhaustive_in_column(&right, af(0, 1)));
    assert_eq!(check_partition(&right, &space, false), Err(ConfigError::IncompleteEvents));
    let closed = vec![event("closed", whole(), &zero)];
    assert!(exhaustive_in_column(&closed, af(0, 1)));
    assert_eq!(check_partition(&closed, &space, false), Ok(()));
}

#[test]
fn events_are_walked_in_any_order() {
    let zero = [af(0, 1)];
    let quarters = vec![
        event("d", ContinuousAlleleFreqs::inclusive(af(3, 4), af(1, 1)), &zero),
        event("b", ContinuousAlleleFreqs::inclusive(af(1, 4), af(1, 2)), &zero),
        event("a", ContinuousAlleleFreqs::right_exclusive(af(0, 1), af(1, 4)), &zero),
        event("c", ContinuousAlleleFreqs::exclusive(af(2, 4), af(6, 8)), &zero),
    ];
    assert!(exclusive_in_column(&quarters, af(0, 1)));
    assert!(exhaustive_in_column(&quarters, af(0, 1)));
    assert_eq!(check_partition(&quarters, &DiscreteAlleleFreqs::absent(), false), Ok(()));
    let mut gap = quarters.clone();
    gap.remove(1);
    assert!(!exhaustive_in_column(&gap, af(0, 1)));
    let mut twice = quarters.clone();
    twice[3].af_case = ContinuousAlleleFreqs::right_exclusive(af(2, 4), af(6, 8));
    assert!(!exclusive_in_column(&twice, af(0, 1)));
    assert!(exhaustive_in_column(&twice, af(0, 1)));
}

#[test]
fn columns_are_judged_apart() {
    let space = DiscreteAlleleFreqs::feasible(1, 1).unwrap();
    let events = vec![
        event("none", whole(), &[af(0, 1)]),
        event("low", ContinuousAlleleFreqs::inclusive(af(0, 1), af(1, 2)), &[af(1, 1)]),
    ];
    assert!(exhaustive_in_column(&events, af(0, 1)));
    assert!(!exhaustive_in_column(&events, af(1, 1)));
    assert!(exclusive_in_column(&events, af(0, 1)));
    assert!(exclusive_in_column(&events, af(1, 1)));
    assert_eq!(check_partition(&events, &space, false), Err(ConfigError::IncompleteEvents));
    let both = vec![event("both", whole(), &[af(0, 1), af(1, 1)])];
    assert_eq!(check_partition(&both, &space, false), Ok(()));
    let clash = vec![event("both", whole(), &[af(0, 1), af(1, 1)]), event("one", whole(), &[af(2, 2)])];
    assert!(exclusive_in_column(&clash, af(0, 1)));
    assert!(!exclusive_in_column(&clash, af(1, 1)));
    assert_eq!(check_partition(&clash, &space, false), Err(ConfigError::OverlappingEvents));
}

#[test]
fn empty_intervals_neither_cover_nor_clash() {
    let zero = [af(0, 1)];
    let events = vec![
        event("whole", whole(), &zero),
        event("empty", ContinuousAlleleFreqs::exclusive(af(1, 2), af(1, 2)), &zero),
    ];
    assert!(exclusive_in_column(&events, af(0, 1)));
    assert!(exhaustive_in_column(&events, af(0, 1)));
    let only = vec![event("empty", ContinuousAlleleFreqs::left_exclusive(af(0, 1), af(0, 1)), &zero)];
    assert!(!exhaustive_in_column(&only, af(0, 1)));
}

#[test]
fn malformed_events_are_told() {
    let space = DiscreteAlleleFreqs::feasible(2, 1).unwrap();
    let good = PairEvent::tumor_normal(2).unwrap();
    assert!(all_well_formed(&good));
    assert_eq!(check_events(&good, &space, false), Ok(()));

    let mut backwards = PairEvent::tumor_normal(2).unwrap();
    backwards[0].af_case = ContinuousAlleleFreqs::inclusive(af(1, 1), af(0, 1));
    assert!(!all_well_formed(&backwards));
    assert_eq!(check_events(&backwards, &space, false), Err(ConfigError::MalformedEvent));

    let mut beyond = PairEvent::tumor_normal(2).unwrap();
    beyond[1].af_case.end = AlleleFreq { num: 3, den: 2 };
    assert_eq!(check_events(&beyond, &space, true), Err(ConfigError::MalformedEvent));

    let mut unordered = PairEvent::tumor_normal(2).unwrap();
    unordered[0].af_control = DiscreteAlleleFreqs { inner: vec![af(1, 1), af(1, 2)] };
    assert_eq!(check_events(&unordered, &space, false), Err(ConfigError::MalformedEvent));

    let mut twice = PairEvent::tumor_normal(2).unwrap();
    twice[0].af_control = DiscreteAlleleFreqs { inner: vec![af(1, 2), af(2, 4), af(1, 1)] };
    assert_eq!(check_events(&twice, &space, false), Err(ConfigError::MalformedEvent));

    let no_space = DiscreteAlleleFreqs { inner: vec![AlleleFreq { num: 0, den: 0 }] };
    assert_eq!(check_events(&good, &no_space, false), Err(ConfigError::MalformedEvent));
}

#[test]
fn well_formed_events_are_judged_as_a_partition() {
    let space = DiscreteAlleleFreqs::feasible(2, 1).unwrap();
    let mut events = PairEvent::tumor_normal(2).unwrap();
    events.pop();
    assert_eq!(check_events(&events, &space, false), Err(ConfigError::IncompleteEvents));
    assert_eq!(check_events(&events, &space, true), Ok(()));
    events.push(event("again", whole(), &[af(1, 2)]));
    assert_eq!(check_events(&events, &space, true), Err(ConfigError::OverlappingEvents));
    events.push(event("third", whole(), &[af(1, 3)]));
    assert_eq!(check_events(&events, &space, true), Err(ConfigError::StrayEvent));
}
