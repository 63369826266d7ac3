use dirt::args::EmuArgs;
use dirt::calling_convention::CallingConvention;
use dirt::datatypes::{DataType, IntegerData, StringData};
use dirt::dirt_engine::{classify, default_cc, CallOutcome, Identification, RuleSet, TargetRules};
use dirt::emu::Error;

/// Drives an identification, answering each probe with `oracle`, and
/// returns the result together with the probes that were run.
fn drive(
    counts: Vec<usize>,
    oracle: &dyn Fn(usize, usize) -> CallOutcome,
) -> (Result<Vec<usize>, Error>, Vec<(usize, usize)>) {
    let mut id = Identification::new(counts);
    let mut probes = Vec::new();
    while let Some((c, k)) = id.next_probe() {
        probes.push((c, k));
        id.record(oracle(c, k));
    }
    (id.result().expect("identification is over"), probes)
}

fn strcmp_candidate() -> TargetRules {
    TargetRules {
        name: String::from("strcmp"),
        inputs: vec![
            EmuArgs::new(vec![
                DataType::Text(StringData::new("a")),
                DataType::Text(StringData::new("a")),
            ]),
            EmuArgs::new(vec![
                DataType::Text(StringData::new("a")),
                DataType::Text(StringData::new("b")),
            ]),
        ],
    }
}

/// Verdict of a strcmp rule instance on a return value.
fn strcmp_verdict(instance: usize, ret: u64) -> bool {
    if instance == 0 {
        ret == 0
    } else {
        ret != 0
    }
}

#[test]
fn strcmp_like_target_matches() {
    let cands = RuleSet { candidates_rules: vec![strcmp_candidate()] };
    let counts = cands.instance_counts();
    assert_eq!(counts, vec![2]);
    // A real strcmp returns 0 on ("a","a") and a non-zero value on ("a","b").
    let returns = [0u64, 0xffffffffffffffff];
    let (res, probes) = drive(counts, &|_, k| classify(Ok(strcmp_verdict(k, returns[k]))));
    assert_eq!(probes, vec![(0, 0), (0, 1)]);
    let matched = res.unwrap();
    assert_eq!(matched, vec![0]);
    let names = cands.matched_names(&matched);
    assert_eq!(names.len(), 1);
    assert_eq!(names[0].name, "strcmp");
}

#[test]
fn always_zero_target_is_not_strcmp() {
    let cands = RuleSet { candidates_rules: vec![strcmp_candidate()] };
    let counts = cands.instance_counts();
    let (res, probes) = drive(counts, &|_, k| classify(Ok(strcmp_verdict(k, 0))));
    assert_eq!(probes, vec![(0, 0), (0, 1)]);
    assert_eq!(res.unwrap(), Vec::<usize>::new());
}

#[test]
fn atoi_zero_target_excluded_after_first_instance() {
    let atoi = TargetRules {
        name: String::from("atoi"),
        inputs: vec![
            EmuArgs::new(vec![DataType::Text(StringData::new("123"))]),
            EmuArgs::new(vec![DataType::Text(StringData::new("-12"))]),
        ],
    };
    let expected = [123u64, (-12i64) as u64];
    let counts = RuleSet { candidates_rules: vec![atoi] }.instance_counts();
    let (res, probes) = drive(counts, &|_, k| classify(Ok(0 == expected[k])));
    assert_eq!(probes, vec![(0, 0)]);
    assert_eq!(res.unwrap(), Vec::<usize>::new());
}

#[test]
fn atoi_like_target_matches() {
    let expected = [123u64, (-12i64) as u64];
    let (res, probes) = drive(vec![2], &|_, k| classify(Ok(expected[k] == expected[k])));
    assert_eq!(probes, vec![(0, 0), (0, 1)]);
    assert_eq!(res.unwrap(), vec![0]);
}

#[test]
fn any_failing_instance_excludes_candidate() {
    for bad in 0..4 {
        let (res, probes) = drive(vec![4], &|_, k| {
            if k == bad {
                CallOutcome::NotMatched
            } else {
                CallOutcome::Passed
            }
        });
        assert_eq!(res.unwrap(), Vec::<usize>::new());
        assert_eq!(probes.len(), bad + 1);
    }
}

#[test]
fn ambiguity_reports_every_match() {
    let (res, _) = drive(vec![2, 1, 3], &|c, _| {
        if c == 1 {
            CallOutcome::NotMatched
        } else {
            CallOutcome::Passed
        }
    });
    assert_eq!(res.unwrap(), vec![0, 2]);
}

#[test]
fn repeated_identification_is_deterministic() {
    let oracle = |c: usize, k: usize| {
        if (c + k) % 3 == 2 {
            CallOutcome::NotMatched
        } else {
            CallOutcome::Passed
        }
    };
    let first = drive(vec![1, 2, 3, 1], &oracle);
    let second = drive(vec![1, 2, 3, 1], &oracle);
    assert_eq!(first, second);
    assert_eq!(first.0.unwrap(), vec![0, 3]);
}

#[test]
fn engine_fault_aborts_identification() {
    let (res, probes) = drive(vec![1, 2, 1], &|c, _| {
        if c == 1 {
            CallOutcome::Fault(Error::UnicornError(11))
        } else {
            CallOutcome::Passed
        }
    });
    assert_eq!(res, Err(Error::UnicornError(11)));
    assert_eq!(probes, vec![(0, 0), (1, 0)]);
}

#[test]
fn candidate_without_instances_matches() {
    let (res, probes) = drive(vec![0, 1], &|_, _| CallOutcome::NotMatched);
    assert_eq!(res.unwrap(), vec![0]);
    assert_eq!(probes, vec![(1, 0)]);
}

#[test]
fn empty_catalog_matches_nothing() {
    let (res, probes) = drive(vec![], &|_, _| CallOutcome::Passed);
    assert_eq!(res.unwrap(), Vec::<usize>::new());
    assert!(probes.is_empty());
}

#[test]
fn result_is_pending_until_done() {
    let id = Identification::new(vec![1]);
    assert!(id.result().is_none());
    assert_eq!(id.next_probe(), Some((0, 0)));
}

#[test]
fn classify_outcomes() {
    assert_eq!(classify(Ok(true)), CallOutcome::Passed);
    assert_eq!(classify(Ok(false)), CallOutcome::NotMatched);
    assert_eq!(classify(Err(Error::ExecError(6))), CallOutcome::NotMatched);
    assert_eq!(classify(Err(Error::UnicornError(1))), CallOutcome::Fault(Error::UnicornError(1)));
    assert_eq!(classify(Err(Error::SnapshotMissing)), CallOutcome::Fault(Error::SnapshotMissing));
}

#[test]
fn default_convention_is_register_based() {
    assert_eq!(default_cc(), CallingConvention::SystemV);
}

#[test]
fn integer_instances_count() {
    let mut set = RuleSet::new();
    assert!(set.instance_counts().is_empty());
    let c = TargetRules {
        name: String::from("abs"),
        inputs: vec![
            EmuArgs::new(vec![DataType::Integer(IntegerData(5))]),
            EmuArgs::new(vec![DataType::Integer(IntegerData(7))]),
            EmuArgs::new(vec![]),
        ],
    };
    set.candidates_rules.push(c);
    assert_eq!(set.instance_counts(), vec![3]);
}
