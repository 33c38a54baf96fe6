use marksman::error::ResyClientError;
use marksman::config::Config;
use marksman::schedule::{schedule_race, schedule_snipe, DeadlineScheduler, WaitStep};

#[test]
fn target_inside_guard_window_is_invalid() {
    let now = 1_700_000_000_000i64;
    let r = DeadlineScheduler::new(now + 10_000, now);
    assert!(matches!(r, Err(ResyClientError::InvalidInput(_))));
    assert!(DeadlineScheduler::new(now + 60_000, now).is_err());
    assert!(DeadlineScheduler::new(now - 5, now).is_err());
    assert_eq!(DeadlineScheduler::new(now + 60_001, now).unwrap().target_ms, now + 60_001);
}

#[test]
fn wait_steps() {
    let s = DeadlineScheduler { target_ms: 1_000_000 };
    assert_eq!(s.step(1_000_000 - 500_000), WaitStep::Sleep(60_000));
    assert_eq!(s.step(1_000_000 - 150_000), WaitStep::Sleep(30_000));
    assert_eq!(s.step(1_000_000 - 120_000), WaitStep::Sleep(1_000));
    assert_eq!(s.step(1_000_000 - 500), WaitStep::Sleep(500));
    assert_eq!(s.step(1_000_000), WaitStep::Done);
    assert_eq!(s.step(1_000_007), WaitStep::Done);
    assert_eq!(s.step(i64::MIN), WaitStep::Sleep(60_000));
}

#[test]
fn wait_ends_within_a_second_with_irregular_clock() {
    let target = 1_700_000_000_000i64;
    for start_offset in [61_000i64, 125_000, 3_600_000, 7_777_777] {
        let s = DeadlineScheduler::new(target, target - start_offset).unwrap();
        let mut now = target - start_offset;
        let mut jitter_state = start_offset as u64;
        let mut steps = 0;
        loop {
            match s.step(now) {
                WaitStep::Done => break,
                WaitStep::Sleep(ms) => {
                    assert!(now < target);
                    jitter_state = jitter_state.wrapping_mul(2862933555777941757).wrapping_add(3037000493);
                    let jitter = ((jitter_state >> 40) % 400) as i64;
                    now += ms as i64 + jitter;
                }
            }
            steps += 1;
            assert!(steps < 100_000);
        }
        assert!(now >= target);
        assert!(now - target < 1_000);
    }
}

#[test]
fn snipe_in_the_past_is_invalid() {
    let now = 1_700_000_000_000i64;
    assert!(matches!(schedule_snipe("2000-01-01", "1200", now), Err(ResyClientError::InvalidInput(_))));
}

#[test]
fn snipe_with_unreadable_date_or_time_is_invalid() {
    assert!(matches!(schedule_snipe("01/01/2999", "1200", 0), Err(ResyClientError::InvalidInput(_))));
    assert!(matches!(schedule_snipe("2999-01-01", "12:00", 0), Err(ResyClientError::InvalidInput(_))));
    assert!(matches!(schedule_snipe("2999-01-01", "2500", 0), Err(ResyClientError::InvalidInput(_))));
}

#[test]
fn snipe_in_the_future_is_scheduled() {
    let s = schedule_snipe("2999-01-01", "1200", 1_700_000_000_000).unwrap();
    // 2999 lies about 1000 years after the epoch reading above
    assert!(s.target_ms > 32_000_000_000_000);
    let t = schedule_snipe("2999-01-01", "1300", 1_700_000_000_000).unwrap();
    assert_eq!(t.target_ms - s.target_ms, 3_600_000);
}

fn complete_config() -> Config {
    Config {
        api_key: "key".to_string(),
        auth_token: "token".to_string(),
        venue_id: "6194".to_string(),
        venue_slug: "carbone".to_string(),
        date: "2024-05-01".to_string(),
        party_size: 2,
        target_time: None,
        payment_id: "42".to_string(),
    }
}

#[test]
fn incomplete_session_is_refused_before_waiting() {
    let mut c = complete_config();
    c.payment_id = String::new();
    let r = schedule_race(&c, "2999-01-01", "1200", 1_700_000_000_000);
    assert!(matches!(r, Err(ResyClientError::InvalidInput(_))));
    let s = schedule_race(&complete_config(), "2999-01-01", "1200", 1_700_000_000_000).unwrap();
    assert!(s.target_ms > 1_700_000_000_000 + 60_000);
    let r = schedule_race(&complete_config(), "2999-02-30", "1200", 1_700_000_000_000);
    assert!(matches!(r, Err(ResyClientError::InvalidInput(_))));
}
