use security_alignment_os::alignment::PredictionLock;
use security_alignment_os::benchmark::{families, run_aggregate, run_all};
use security_alignment_os::Error;

#[test]
fn rust_benchmark_and_prediction_lock_stay_local() {
    let aggregate = run_aggregate("fit").unwrap();
    assert_eq!(aggregate.total, 9);
    assert_eq!(aggregate.passed, aggregate.total);
    let all = run_all().unwrap();
    assert_eq!(all.len(), 3);
    assert!(all
        .iter()
        .all(|aggregate| aggregate.total == 9 && aggregate.passed == aggregate.total));
    let mut lock = PredictionLock::new("protocol", "predictions", "configuration").unwrap();
    assert!(lock.validate().is_err());
    lock.lock_fit();
    assert!(lock.validate().is_err());
    lock.accept_independently();
    assert!(lock.validate().is_ok());
}

#[test]
fn unknown_benchmark_split_is_invalid() {
    assert!(matches!(run_aggregate("holdout"), Err(Error::Invalid(_))));
}

#[test]
fn benchmark_families_cover_every_split() {
    let cases = families();
    assert_eq!(cases.len(), 27);
    assert_eq!(cases[0].family, "instruction_conflict");
    assert_eq!(cases[0].split, "fit");
    assert_eq!(cases[26].family, "nominal_control");
    assert_eq!(cases[26].split, "assessment");
    assert_eq!(cases[26].proposal.candidate_id, "assessment-nominal_control");
    let accepted: Vec<_> = cases.iter().filter(|c| c.accepted).map(|c| c.family).collect();
    assert_eq!(accepted, vec!["nominal_control"; 3]);
}
