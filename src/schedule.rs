//! Waiting for the moment a race starts. Times are wall-clock milliseconds
//! since the Unix epoch; the caller reads the clock before every step and
//! sleeps as the step says, so clock adjustments are taken into account.
use vstd::prelude::*;
use crate::config::{normalized_date, Config};
use crate::error::ResyClientError;
use crate::slots::time_of_day;
use chrono::TimeZone;

verus! {

/// The least lead time, in milliseconds, between configuring a race and its
/// start: less leaves no room for the calls a race makes.
pub const GUARD_WINDOW_MS: i64 = 60_000;

/// Within this many milliseconds of the start the wait polls finely.
pub const NEAR_THRESHOLD_MS: i64 = 120_000;

/// The longest single sleep while far from the start.
pub const COARSE_STEP_MS: i64 = 60_000;

/// The longest single sleep near the start.
pub const FINE_STEP_MS: i64 = 1_000;

/// What to do after reading the clock.
#[derive(Debug, PartialEq, Eq)]
pub enum WaitStep {
    /// The start has come.
    Done,
    /// Sleep this many milliseconds, then read the clock again.
    Sleep(u64),
}

/// The step a wait for `target` takes when the clock reads `now`: done once
/// the clock has reached the target; far from it, a coarse sleep that ends
/// no later than the near threshold; near it, a sleep of at most a second
/// that ends no later than the target.
pub open spec fn wait_step(target: int, now: int) -> WaitStep {
    let remaining = target - now;
    if remaining <= 0 {
        WaitStep::Done
    } else if remaining > NEAR_THRESHOLD_MS {
        let d = remaining - NEAR_THRESHOLD_MS;
        WaitStep::Sleep((if d < COARSE_STEP_MS { d } else { COARSE_STEP_MS as int }) as u64)
    } else {
        WaitStep::Sleep((if remaining < FINE_STEP_MS { remaining } else { FINE_STEP_MS as int }) as u64)
    }
}

/// Waits for a fixed start time.
pub struct DeadlineScheduler {
    pub target_ms: i64,
}

impl DeadlineScheduler {
    /// A wait for `target_ms`, configured at `now_ms`. It is `InvalidInput`
    /// unless the target lies more than the guard window after now.
    pub fn new(target_ms: i64, now_ms: i64) -> (r: Result<DeadlineScheduler, ResyClientError>)
        ensures
            r is Ok <==> target_ms > now_ms + GUARD_WINDOW_MS,
            r matches Ok(s) ==> s.target_ms == target_ms,
            r matches Err(e) ==> e is InvalidInput,
    {
        if now_ms >= i64::MAX - GUARD_WINDOW_MS || target_ms <= now_ms + GUARD_WINDOW_MS {
            Err(ResyClientError::InvalidInput(String::from_str("Snipe date/time is in the past")))
        } else {
            Ok(DeadlineScheduler { target_ms })
        }
    }

    /// The next step of the wait, with the clock reading `now_ms`.
    pub fn step(&self, now_ms: i64) -> (r: WaitStep)
        ensures
            r == wait_step(self.target_ms as int, now_ms as int),
    {
        let remaining: i128 = self.target_ms as i128 - now_ms as i128;
        if remaining <= 0 {
            WaitStep::Done
        } else if remaining > NEAR_THRESHOLD_MS as i128 {
            let d: i128 = remaining - NEAR_THRESHOLD_MS as i128;
            if d < COARSE_STEP_MS as i128 {
                WaitStep::Sleep(d as u64)
            } else {
                WaitStep::Sleep(COARSE_STEP_MS as u64)
            }
        } else if remaining < FINE_STEP_MS as i128 {
            WaitStep::Sleep(remaining as u64)
        } else {
            WaitStep::Sleep(FINE_STEP_MS as u64)
        }
    }
}

/// The wait's steps are sound: it is done exactly when the clock has reached
/// the target; otherwise it sleeps a positive time that never carries past
/// the target, nor, while far from it, past the near threshold; and near the
/// target it sleeps at most a second, so it reads the clock at least once a
/// second there.
pub proof fn lemma_wait_step(target: int, now: int)
    ensures
        wait_step(target, now) is Done <==> now >= target,
        wait_step(target, now) matches WaitStep::Sleep(d) ==> {
            &&& 0 < d <= COARSE_STEP_MS
            &&& now + d <= target
            &&& target - now > NEAR_THRESHOLD_MS ==> now + d <= target - NEAR_THRESHOLD_MS
            &&& target - now <= NEAR_THRESHOLD_MS ==> d <= FINE_STEP_MS && (target - now <= FINE_STEP_MS
                ==> now + d == target)
        },
{
}

/// A wait that begins before its target ends less than a second after it,
/// on a clock that overruns each sleep by less than a second: every reading
/// taken after a sleep lies below the target plus a second, and the wait is
/// done at the first reading at or after the target.
pub proof fn lemma_wait_ends_within_a_second(target: int, now: int, late: int)
    requires
        now < target,
        0 <= late < FINE_STEP_MS,
    ensures
        wait_step(target, now) matches WaitStep::Sleep(d) && now + d + late < target + FINE_STEP_MS,
{
}

/// The start of a race, in milliseconds since the epoch, for a date
/// (`YYYY-MM-DD`) and a time of day (`HHMM`) in the machine's time zone;
/// `None` where either cannot be read, or the local time does not exist or
/// is ambiguous.
///
/// Relies on chrono: `NaiveDate::parse_from_str`, `NaiveTime::parse_from_str`
/// and `Local.from_local_datetime(..).single()`. The instant depends on the
/// machine's time zone, so only this is stated of it: there is none unless
/// both parses succeed.
#[verifier::external_body]
fn local_instant_ms(date: &str, time: &str) -> (r: Option<i64>)
    ensures
        r is Some ==> normalized_date(date@) is Some && time_of_day(time@, "%H%M"@) is Some,
{
    let d = chrono::NaiveDate::parse_from_str(date, "%Y-%m-%d").ok()?;
    let t = chrono::NaiveTime::parse_from_str(time, "%H%M").ok()?;
    let dt = chrono::Local.from_local_datetime(&d.and_time(t)).single()?;
    Some(dt.timestamp_millis())
}

/// The wait for a race at `snipe_time` (`HHMM`) on `snipe_date`
/// (`YYYY-MM-DD`), local time, configured at `now_ms`. A date or time that
/// cannot be read, a local time that does not exist or is ambiguous, and a
/// start within the guard window, are `InvalidInput`.
pub fn schedule_snipe(snipe_date: &str, snipe_time: &str, now_ms: i64) -> (r: Result<
    DeadlineScheduler,
    ResyClientError,
>)
    ensures
        r matches Ok(s) ==> s.target_ms > now_ms + GUARD_WINDOW_MS,
        r matches Err(e) ==> e is InvalidInput,
        normalized_date(snipe_date@) is None ==> r is Err,
        time_of_day(snipe_time@, "%H%M"@) is None ==> r is Err,
{
    match local_instant_ms(snipe_date, snipe_time) {
        Some(target) => DeadlineScheduler::new(target, now_ms),
        None => Err(ResyClientError::InvalidInput(String::from_str("Invalid date or time"))),
    }
}

/// The wait for a race of `config`, checked when the race is configured and
/// before any wait or call: an incomplete session, and a start that
/// `schedule_snipe` refuses, are `InvalidInput`.
pub fn schedule_race(config: &Config, snipe_date: &str, snipe_time: &str, now_ms: i64) -> (r: Result<
    DeadlineScheduler,
    ResyClientError,
>)
    ensures
        !config.complete() ==> (r matches Err(e) && e is InvalidInput),
        r matches Ok(s) ==> config.complete() && s.target_ms > now_ms + GUARD_WINDOW_MS,
        r matches Err(e) ==> e is InvalidInput,
        normalized_date(snipe_date@) is None ==> r is Err,
        time_of_day(snipe_time@, "%H%M"@) is None ==> r is Err,
{
    config.check_complete()?;
    schedule_snipe(snipe_date, snipe_time, now_ms)
}

/// Clock readings of a wait for `target` that began before it, on a clock
/// that overruns each sleep by less than a second: after each reading that
/// is not done, the next one comes after the sleep the step asked for, and
/// less than a second after its end.
pub open spec fn wait_readings(target: int, readings: Seq<int>) -> bool {
    &&& readings.len() > 0
    &&& readings[0] < target
    &&& forall|k: int|
        0 <= k < readings.len() - 1 ==> (#[trigger] wait_step(target, readings[k]) matches WaitStep::Sleep(
            d,
        ) && readings[k] + d <= readings[k + 1] < readings[k] + d + FINE_STEP_MS)
}

/// A whole wait on such a clock: every reading lies below the target plus a
/// second, every reading but the last lies before the target, and the wait
/// is done at the first reading at or after the target; so it ends at a
/// reading in `[target, target + 1 s)`.
pub proof fn lemma_wait_run_ends_within_a_second(target: int, readings: Seq<int>)
    requires
        wait_readings(target, readings),
    ensures
        forall|k: int| 0 <= k < readings.len() ==> #[trigger] readings[k] < target + FINE_STEP_MS,
        forall|k: int| 0 <= k < readings.len() - 1 ==> #[trigger] readings[k] < target,
        readings.last() >= target ==> wait_step(target, readings.last()) is Done,
{
    assert forall|k: int| 0 <= k < readings.len() implies #[trigger] readings[k] < target + FINE_STEP_MS by {
        if k > 0 {
            assert(wait_step(target, readings[k - 1]) is Sleep);
            lemma_wait_step(target, readings[k - 1]);
        }
    }
    assert forall|k: int| 0 <= k < readings.len() - 1 implies #[trigger] readings[k] < target by {
        assert(wait_step(target, readings[k]) is Sleep);
        lemma_wait_step(target, readings[k]);
    }
    lemma_wait_step(target, readings.last());
}

} // verus!
