use marksman::error::ResyClientError;
use marksman::race::{Attempt, RaceCoordinator, RaceOutcome};

fn quote(s: &str) -> Result<String, ResyClientError> {
    Ok(s.to_string())
}

fn api_error() -> Result<String, ResyClientError> {
    Err(ResyClientError::ApiError("API request failed: 500".to_string()))
}

fn booking_error() -> Result<String, ResyClientError> {
    Err(ResyClientError::BookingError("Error booking reservation".to_string()))
}

#[test]
fn race_without_candidates_is_not_found() {
    let r = RaceCoordinator::start(0);
    assert!(matches!(r, Err(ResyClientError::NotFound(_))));
}

#[test]
fn first_quote_claims_guard_and_commits() {
    let mut c = RaceCoordinator::start(3).unwrap();
    assert_eq!(c.candidates(), 3);
    assert!(c.outcome().is_none());
    let action = c.quote_resolved(1, quote("q1"));
    assert_eq!(action, Some((1, "q1".to_string())));
    assert!(matches!(c.attempt(1), Attempt::Committing));
    assert!(matches!(c.attempt(0), Attempt::Quoting));
}

#[test]
fn failed_first_quote_leaves_others_racing() {
    let mut c = RaceCoordinator::start(2).unwrap();
    assert_eq!(c.quote_resolved(0, api_error()), None);
    assert!(matches!(c.attempt(0), Attempt::Failed(ResyClientError::ApiError(_))));
    assert!(c.outcome().is_none());
    assert_eq!(c.quote_resolved(1, quote("q1")), Some((1, "q1".to_string())));
    assert_eq!(c.commit_resolved(1, Ok("conf-1".to_string())), None);
    match c.outcome() {
        Some(RaceOutcome::Success { confirmation, slot }) => {
            assert_eq!(confirmation, "conf-1");
            assert_eq!(slot, 1);
        }
        other => panic!("unexpected outcome {:?}", other),
    }
}

#[test]
fn loser_observes_guard_and_skips_commit() {
    let mut c = RaceCoordinator::start(2).unwrap();
    let mut commit_calls = 0;
    let a0 = c.quote_resolved(0, quote("q0"));
    assert_eq!(a0, Some((0, "q0".to_string())));
    commit_calls += 1;
    // the second quote arrives while the first commit is in flight
    assert_eq!(c.quote_resolved(1, quote("q1")), None);
    assert!(matches!(c.attempt(1), Attempt::Waiting(_)));
    assert_eq!(c.commit_resolved(0, Ok("conf-0".to_string())), None);
    assert!(matches!(c.attempt(1), Attempt::Lost));
    assert_eq!(commit_calls, 1);
    let result = c.outcome().unwrap().into_result();
    assert_eq!(result, Ok("conf-0".to_string()));
}

#[test]
fn quote_after_win_is_lost_without_commit() {
    let mut c = RaceCoordinator::start(2).unwrap();
    assert_eq!(c.quote_resolved(1, quote("q1")), Some((1, "q1".to_string())));
    assert_eq!(c.commit_resolved(1, Ok("conf-1".to_string())), None);
    assert!(c.outcome().is_some());
    assert_eq!(c.quote_resolved(0, quote("q0")), None);
    assert!(matches!(c.attempt(0), Attempt::Lost));
    assert!(matches!(c.attempt(1), Attempt::Won(_)));
}

#[test]
fn failed_commit_releases_guard_for_pending_candidate() {
    let mut c = RaceCoordinator::start(2).unwrap();
    assert_eq!(c.quote_resolved(0, quote("q0")), Some((0, "q0".to_string())));
    assert_eq!(c.commit_resolved(0, booking_error()), None);
    assert!(matches!(c.attempt(0), Attempt::Failed(ResyClientError::BookingError(_))));
    assert!(c.outcome().is_none());
    assert_eq!(c.quote_resolved(1, quote("q1")), Some((1, "q1".to_string())));
    assert_eq!(c.commit_resolved(1, Ok("conf-1".to_string())), None);
    assert_eq!(c.outcome().unwrap().into_result(), Ok("conf-1".to_string()));
}

#[test]
fn failed_commit_hands_guard_to_waiting_candidate() {
    let mut c = RaceCoordinator::start(3).unwrap();
    assert_eq!(c.quote_resolved(2, quote("q2")), Some((2, "q2".to_string())));
    assert_eq!(c.quote_resolved(0, quote("q0")), None);
    assert_eq!(c.quote_resolved(1, quote("q1")), None);
    // the first waiting attempt in slot order is committed next, once
    assert_eq!(c.commit_resolved(2, booking_error()), Some((0, "q0".to_string())));
    assert!(matches!(c.attempt(1), Attempt::Waiting(_)));
    assert_eq!(c.commit_resolved(0, booking_error()), Some((1, "q1".to_string())));
    assert_eq!(c.commit_resolved(1, booking_error()), None);
    match c.outcome() {
        Some(RaceOutcome::Failure { reasons }) => {
            assert_eq!(reasons.len(), 3);
            for (k, (slot, e)) in reasons.iter().enumerate() {
                assert_eq!(*slot, k);
                assert!(matches!(e, ResyClientError::BookingError(_)));
            }
        }
        other => panic!("unexpected outcome {:?}", other),
    }
}

#[test]
fn all_failed_race_is_booking_error() {
    let mut c = RaceCoordinator::start(2).unwrap();
    assert_eq!(c.quote_resolved(0, api_error()), None);
    assert!(c.outcome().is_none());
    assert_eq!(
        c.quote_resolved(1, Err(ResyClientError::NotFound("Book token not found".to_string()))),
        None
    );
    let outcome = c.outcome().unwrap();
    match &outcome {
        RaceOutcome::Failure { reasons } => {
            assert!(matches!(reasons[0], (0, ResyClientError::ApiError(_))));
            assert!(matches!(reasons[1], (1, ResyClientError::NotFound(_))));
        }
        other => panic!("unexpected outcome {:?}", other),
    }
    match outcome.into_result() {
        Err(ResyClientError::BookingError(m)) => {
            assert_eq!(m, "Booking failure: all slots failed; API request failed: 500; Book token not found")
        }
        other => panic!("unexpected {:?}", other),
    }
}

/// A small deterministic generator for the order in which calls complete.
fn next_random(state: &mut u64) -> u64 {
    *state = state.wrapping_mul(6364136223846793005).wrapping_add(1442695040888963407);
    *state >> 33
}

#[test]
fn at_most_one_commit_succeeds_in_any_order() {
    for n in 1..=20usize {
        for seed in 0..25u64 {
            let mut rng = seed * 7919 + n as u64;
            let mut c = RaceCoordinator::start(n).unwrap();
            // calls in flight: (slot, is_commit, quote)
            let mut in_flight: Vec<(usize, bool, String)> =
                (0..n).map(|i| (i, false, String::new())).collect();
            let mut stub_successes = 0;
            let mut commits_in_flight = 0;
            let mut committed = vec![false; n];
            while !in_flight.is_empty() {
                let pick = (next_random(&mut rng) as usize) % in_flight.len();
                let (slot, is_commit, q) = in_flight.remove(pick);
                let succeed = next_random(&mut rng) % 3 != 0;
                let action = if is_commit {
                    commits_in_flight -= 1;
                    assert_eq!(q, format!("quote-{}", slot));
                    if succeed {
                        stub_successes += 1;
                        c.commit_resolved(slot, Ok(format!("conf-{}", slot)))
                    } else {
                        c.commit_resolved(slot, booking_error())
                    }
                } else if succeed {
                    c.quote_resolved(slot, Ok(format!("quote-{}", slot)))
                } else {
                    c.quote_resolved(slot, api_error())
                };
                if let Some((j, quote)) = action {
                    assert!(!committed[j]);
                    committed[j] = true;
                    commits_in_flight += 1;
                    assert!(commits_in_flight <= 1);
                    in_flight.push((j, true, quote));
                }
            }
            assert!(stub_successes <= 1);
            match c.outcome() {
                Some(RaceOutcome::Success { slot, confirmation }) => {
                    assert_eq!(stub_successes, 1);
                    assert_eq!(confirmation, format!("conf-{}", slot));
                }
                Some(RaceOutcome::Failure { reasons }) => {
                    assert_eq!(stub_successes, 0);
                    assert_eq!(reasons.len(), n);
                }
                None => panic!("race did not settle"),
            }
        }
    }
}
