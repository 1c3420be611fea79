use prosic::double::Double;
use prosic::error::ConfigError;
use prosic::estimate::effective_mutation_rate;
use prosic::filter::{
    filter, parse_vartype, DummyEvent, FilterAction, FilterCommand, KassRaftery, VariantType,
};

fn d(x: f64) -> Double {
    Double::from_bits(x.to_bits())
}

fn numbers(v: &[Double]) -> Vec<f64> {
    v.iter().map(|x| f64::from_bits(x.to_bits())).collect()
}

fn doubles(v: &[f64]) -> Vec<Double> {
    v.iter().map(|x| d(*x)).collect()
}

const SCALE: [KassRaftery; 5] = [
    KassRaftery::NoEvidence,
    KassRaftery::Barely,
    KassRaftery::Positive,
    KassRaftery::Strong,
    KassRaftery::VeryStrong,
];

#[test]
fn variant_types_by_name() {
    assert_eq!(parse_vartype("SNV", None, None), Ok(VariantType::SNV));
    assert_eq!(parse_vartype("SNV", Some(1), Some(5)), Ok(VariantType::SNV));
    assert_eq!(parse_vartype("INS", Some(1), Some(5)), Ok(VariantType::Insertion(Some(1..5))));
    assert_eq!(parse_vartype("DEL", Some(10), Some(50)), Ok(VariantType::Deletion(Some(10..50))));
    assert_eq!(parse_vartype("INS", None, None), Ok(VariantType::Insertion(None)));
    assert_eq!(parse_vartype("DEL", None, None), Ok(VariantType::Deletion(None)));
}

#[test]
fn one_bound_alone_bounds_nothing() {
    assert_eq!(parse_vartype("INS", Some(1), None), Ok(VariantType::Insertion(None)));
    assert_eq!(parse_vartype("INS", None, Some(5)), Ok(VariantType::Insertion(None)));
    assert_eq!(parse_vartype("DEL", Some(1), None), Ok(VariantType::Deletion(None)));
    assert_eq!(parse_vartype("DEL", None, Some(5)), Ok(VariantType::Deletion(None)));
}

#[test]
fn other_variant_types_are_refused() {
    assert_eq!(parse_vartype("snv", None, None), Err(ConfigError::UnsupportedVariantType));
    assert_eq!(parse_vartype("MNV", Some(1), Some(2)), Err(ConfigError::UnsupportedVariantType));
    assert_eq!(parse_vartype("", None, None), Err(ConfigError::UnsupportedVariantType));
    assert_eq!(parse_vartype("INS ", None, None), Err(ConfigError::UnsupportedVariantType));
}

#[test]
fn evidence_by_name() {
    assert_eq!(KassRaftery::parse("none"), Ok(KassRaftery::NoEvidence));
    assert_eq!(KassRaftery::parse("barely"), Ok(KassRaftery::Barely));
    assert_eq!(KassRaftery::parse("positive"), Ok(KassRaftery::Positive));
    assert_eq!(KassRaftery::parse("strong"), Ok(KassRaftery::Strong));
    assert_eq!(KassRaftery::parse("very-strong"), Ok(KassRaftery::VeryStrong));
    assert_eq!(KassRaftery::parse("very_strong"), Err(ConfigError::UnknownEvidence));
    assert_eq!(KassRaftery::parse("Strong"), Err(ConfigError::UnknownEvidence));
}

#[test]
fn evidence_is_ordered_along_the_scale() {
    for (i, a) in SCALE.iter().enumerate() {
        for (j, b) in SCALE.iter().enumerate() {
            assert_eq!(a.at_least(*b), i >= j);
        }
    }
}

#[test]
fn what_passes_for_strong_passes_for_barely() {
    for e in SCALE.iter() {
        if e.at_least(KassRaftery::Strong) {
            assert!(e.at_least(KassRaftery::Barely));
        }
    }
    assert!(KassRaftery::Positive.at_least(KassRaftery::Barely));
    assert!(!KassRaftery::Positive.at_least(KassRaftery::Strong));
}

#[test]
fn events_keep_names_and_order() {
    let plan = filter(vec!["somatic".to_owned(), "germline".to_owned(), "somatic".to_owned()], None).unwrap();
    assert_eq!(
        plan.events,
        vec![
            DummyEvent { name: "somatic".to_owned() },
            DummyEvent { name: "germline".to_owned() },
            DummyEvent { name: "somatic".to_owned() },
        ]
    );
    assert_eq!(plan.events[1].name(), "germline");
    assert_eq!(plan.action, FilterAction::Nothing);
    assert_eq!(filter(vec![], None).unwrap().events, vec![]);
}

fn fdr(vartype: &str, rate: Option<f64>) -> FilterCommand {
    FilterCommand::ControlFdr {
        calls: "calls.bcf".to_owned(),
        vartype: vartype.to_owned(),
        min_len: Some(2),
        max_len: Some(30),
        fdr: rate.map(d),
    }
}

#[test]
fn fdr_control_is_planned() {
    let plan = filter(vec!["somatic".to_owned()], Some(fdr("DEL", Some(0.05)))).unwrap();
    assert_eq!(plan.events, vec![DummyEvent { name: "somatic".to_owned() }]);
    match plan.action {
        FilterAction::ControlFdr { calls, vartype, alpha } => {
            assert_eq!(calls, "calls.bcf");
            assert_eq!(vartype, VariantType::Deletion(Some(2..30)));
            assert_eq!(f64::from_bits(alpha.get().to_bits()), 0.05);
        }
        other => panic!("planned {:?}", other),
    }
}

#[test]
fn fdr_control_takes_rates_above_zero_up_to_one() {
    assert!(filter(vec![], Some(fdr("SNV", Some(1.0)))).is_ok());
    assert!(filter(vec![], Some(fdr("SNV", Some(0.05)))).is_ok());
    assert!(filter(vec![], Some(fdr("SNV", Some(f64::from_bits(1))))).is_ok());
}

#[test]
fn fdr_control_refuses_a_rate_of_zero() {
    assert_eq!(filter(vec![], Some(fdr("SNV", Some(0.0)))), Err(ConfigError::ZeroRate));
    assert_eq!(filter(vec![], Some(fdr("DEL", Some(-0.0)))), Err(ConfigError::ZeroRate));
    assert_eq!(
        filter(vec!["somatic".to_owned()], Some(fdr("INS", Some(0.0)))),
        Err(ConfigError::ZeroRate)
    );
}

#[test]
fn fdr_control_failures_in_order() {
    assert_eq!(
        filter(vec![], Some(fdr("XYZ", None))),
        Err(ConfigError::UnsupportedVariantType)
    );
    assert_eq!(
        filter(vec![], Some(fdr("XYZ", Some(3.0)))),
        Err(ConfigError::UnsupportedVariantType)
    );
    assert_eq!(filter(vec![], Some(fdr("INS", None))), Err(ConfigError::InvalidRate));
    assert_eq!(
        filter(vec![], Some(fdr("INS", Some(1.5)))),
        Err(ConfigError::InvalidProbability(d(1.5)))
    );
    assert_eq!(
        filter(vec![], Some(fdr("INS", Some(-0.5)))),
        Err(ConfigError::InvalidProbability(d(-0.5)))
    );
    assert_eq!(
        filter(vec![], Some(fdr("XYZ", Some(0.0)))),
        Err(ConfigError::UnsupportedVariantType)
    );
    assert_eq!(filter(vec![], Some(fdr("INS", Some(0.0)))), Err(ConfigError::ZeroRate));
}

#[test]
fn posterior_odds_are_planned() {
    let plan = filter(
        vec!["absent".to_owned()],
        Some(FilterCommand::PosteriorOdds { odds: "very-strong".to_owned() }),
    )
    .unwrap();
    assert_eq!(plan.events, vec![DummyEvent { name: "absent".to_owned() }]);
    assert_eq!(plan.action, FilterAction::PosteriorOdds { min_evidence: KassRaftery::VeryStrong });
    assert_eq!(
        filter(vec![], Some(FilterCommand::PosteriorOdds { odds: "decisive".to_owned() })),
        Err(ConfigError::UnknownEvidence)
    );
}

#[test]
fn default_window_is_from_12_to_25_hundredths() {
    let freqs = doubles(&[0.05, 0.12, 0.119999, 0.2, 0.25, 0.250001, 0.5, 0.13]);
    assert_eq!(numbers(&effective_mutation_rate(&freqs, None, None)), vec![0.12, 0.2, 0.25, 0.13]);
}

#[test]
fn window_ends_can_be_given() {
    let freqs = doubles(&[0.05, 0.12, 0.2, 0.25, 0.5, 0.2]);
    assert_eq!(
        numbers(&effective_mutation_rate(&freqs, Some(d(0.2)), None)),
        vec![0.2, 0.25, 0.2]
    );
    assert_eq!(
        numbers(&effective_mutation_rate(&freqs, None, Some(d(0.5)))),
        vec![0.12, 0.2, 0.25, 0.5, 0.2]
    );
    assert_eq!(
        numbers(&effective_mutation_rate(&freqs, Some(d(0.0)), Some(d(0.1)))),
        vec![0.05]
    );
    assert_eq!(
        numbers(&effective_mutation_rate(&freqs, Some(d(0.3)), Some(d(0.2)))),
        Vec::<f64>::new()
    );
}

#[test]
fn window_never_holds_what_is_no_number() {
    let freqs = doubles(&[f64::NAN, 0.2, f64::INFINITY, -0.0, f64::NEG_INFINITY]);
    assert_eq!(numbers(&effective_mutation_rate(&freqs, None, None)), vec![0.2]);
    assert_eq!(
        numbers(&effective_mutation_rate(&freqs, Some(d(f64::NAN)), Some(d(1.0)))),
        Vec::<f64>::new()
    );
    assert_eq!(
        numbers(&effective_mutation_rate(&freqs, Some(d(f64::NEG_INFINITY)), Some(d(f64::INFINITY)))),
        vec![0.2, f64::INFINITY, -0.0, f64::NEG_INFINITY]
    );
    assert_eq!(numbers(&effective_mutation_rate(&vec![], None, None)), Vec::<f64>::new());
}
