use llm_sdk::classify::{assess_attempt, classify_failure, AttemptClass, AttemptOutcome, Classification};
use llm_sdk::retry::{RetryPolicy, RetryState, RetryTransition, RetryVerdict, run_attempts};

#[test]
fn classifier_is_total_and_deterministic_over_the_error_ranges() {
    let mut status: u16 = 400;
    while status <= 599 {
        let c1 = classify_failure(&AttemptOutcome::Response { status });
        let c2 = classify_failure(&AttemptOutcome::Response { status });
        assert_eq!(c1, c2);
        let expect_transient = status == 429 || (500..=599).contains(&status);
        if expect_transient {
            assert_eq!(c1, Classification::Transient);
        } else {
            assert_eq!(c1, Classification::Permanent);
        }
        status += 1;
    }
    assert_eq!(
        classify_failure(&AttemptOutcome::TransportFailure),
        Classification::Transient
    );
}

#[test]
fn assessment_reads_success_and_failures_apart() {
    assert_eq!(
        assess_attempt(&AttemptOutcome::Response { status: 200 }),
        AttemptClass::Success
    );
    assert_eq!(
        assess_attempt(&AttemptOutcome::Response { status: 429 }),
        AttemptClass::Transient
    );
    assert_eq!(
        assess_attempt(&AttemptOutcome::Response { status: 503 }),
        AttemptClass::Transient
    );
    assert_eq!(
        assess_attempt(&AttemptOutcome::Response { status: 404 }),
        AttemptClass::Permanent
    );
    assert_eq!(
        assess_attempt(&AttemptOutcome::TransportFailure),
        AttemptClass::Transient
    );
}

#[test]
fn always_transient_transport_exhausts_the_budget_in_exactly_max_retries_plus_one_attempts() {
    let p = RetryPolicy::default();
    assert_eq!(p.max_retries, 3);
    let outcomes = vec![AttemptOutcome::TransportFailure; 10];
    let (attempts, verdict) = run_attempts(&p, &outcomes);
    assert_eq!(attempts, 4);
    assert_eq!(verdict, Some(RetryVerdict::FailedExhausted));
}

#[test]
fn success_on_attempt_k_makes_exactly_k_attempts() {
    let p = RetryPolicy::default();
    for k in 1..=4usize {
        let mut outcomes = vec![AttemptOutcome::Response { status: 503 }; k - 1];
        outcomes.push(AttemptOutcome::Response { status: 200 });
        outcomes.push(AttemptOutcome::Response { status: 200 });
        let (attempts, verdict) = run_attempts(&p, &outcomes);
        assert_eq!(attempts, k);
        assert_eq!(verdict, Some(RetryVerdict::Succeeded));
    }
}

#[test]
fn a_permanent_failure_stops_at_once() {
    let p = RetryPolicy::default();
    let outcomes = vec![
        AttemptOutcome::Response { status: 400 },
        AttemptOutcome::Response { status: 200 },
    ];
    let (attempts, verdict) = run_attempts(&p, &outcomes);
    assert_eq!(attempts, 1);
    assert_eq!(verdict, Some(RetryVerdict::FailedPermanent));
}

#[test]
fn backoff_doubles_from_the_base_and_stays_under_the_cap() {
    let p = RetryPolicy::new(5, 1000, 60000);
    assert_eq!(p.backoff_delay_ms(0), 1000);
    assert_eq!(p.backoff_delay_ms(1), 2000);
    assert_eq!(p.backoff_delay_ms(2), 4000);
    assert_eq!(p.backoff_delay_ms(5), 32000);
    assert_eq!(p.backoff_delay_ms(6), 60000);
    assert_eq!(p.backoff_delay_ms(20), 60000);
}

#[test]
fn transitions_follow_the_state_machine() {
    let p = RetryPolicy::default();
    let s0 = RetryState::new();
    match p.next_transition(&s0, &AttemptOutcome::Response { status: 502 }) {
        RetryTransition::Waiting { delay_ms, next } => {
            assert_eq!(delay_ms, 1000);
            assert_eq!(next.attempt, 1);
        }
        other => panic!("expected a wait, got {:?}", other),
    }
    let exhausted_state = RetryState { attempt: 3 };
    assert_eq!(
        p.next_transition(&exhausted_state, &AttemptOutcome::TransportFailure),
        RetryTransition::Finished {
            verdict: RetryVerdict::FailedExhausted
        }
    );
    assert_eq!(
        p.next_transition(&s0, &AttemptOutcome::Response { status: 200 }),
        RetryTransition::Finished {
            verdict: RetryVerdict::Succeeded
        }
    );
    assert_eq!(
        p.next_transition(&s0, &AttemptOutcome::Response { status: 422 }),
        RetryTransition::Finished {
            verdict: RetryVerdict::FailedPermanent
        }
    );
}
