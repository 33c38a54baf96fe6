//! The race: one attempt per candidate slot, each drawing a quote and then
//! committing it, with an exclusivity guard that lets at most one commit be
//! in flight and at most one succeed.
//!
//! The coordinator decides; the caller performs the calls. It reports each
//! answer of the service (`quote_resolved`, `commit_resolved`) and issues
//! the commit that the coordinator hands back, if any. Shared between
//! concurrent tasks, the coordinator is held under one lock, so that testing
//! and claiming the guard is a single step.
use vstd::prelude::*;
use crate::error::ResyClientError;

verus! {

/// How one candidate's attempt stands.
#[derive(Debug)]
pub enum Attempt {
    /// Its quote has been requested and not answered yet.
    Quoting,
    /// It holds a quote and waits for the guard.
    Waiting(String),
    /// It holds the guard; its commit is in flight.
    Committing,
    /// Its quote or its commit failed.
    Failed(ResyClientError),
    /// Another attempt won; it issued no commit.
    Lost,
    /// Its commit succeeded, with this confirmation.
    Won(String),
}

/// The exclusivity guard of one race: the attempt whose commit is in
/// flight, if any, and whether a commit has succeeded.
pub struct ExclusivityGuard {
    pub holder: Option<usize>,
    pub won: bool,
}

impl ExclusivityGuard {
    /// An unclaimed guard.
    pub fn new() -> (r: ExclusivityGuard)
        ensures
            r.holder is None,
            !r.won,
    {
        ExclusivityGuard { holder: None, won: false }
    }

    /// Tests the guard and claims it for `slot` in one step: succeeds only
    /// where no commit has succeeded and none is in flight.
    pub fn try_claim(&mut self, slot: usize) -> (claimed: bool)
        ensures
            claimed == (old(self).holder is None && !old(self).won),
            final(self).won == old(self).won,
            final(self).holder == (if claimed { Some(slot) } else { old(self).holder }),
    {
        if self.holder.is_none() && !self.won {
            self.holder = Some(slot);
            true
        } else {
            false
        }
    }

    /// Gives the guard up after a failed commit, so that another attempt may
    /// claim it.
    pub fn release(&mut self)
        ensures
            final(self).holder is None,
            final(self).won == old(self).won,
    {
        self.holder = None;
    }

    /// Records that the commit in flight succeeded.
    pub fn confirm(&mut self)
        ensures
            final(self).holder is None,
            final(self).won,
    {
        self.holder = None;
        self.won = true;
    }
}

/// The state of a race as plain values.
pub struct RaceState {
    pub attempts: Seq<Attempt>,
    pub holder: Option<usize>,
    pub won: bool,
}

/// The invariant of a race. The guard is held exactly by the one attempt
/// whose commit is in flight; it is won exactly when one attempt has won,
/// and then by that attempt alone and with no commit in flight; an attempt
/// waits for the guard only while another holds it.
pub open spec fn race_wf(s: RaceState) -> bool {
    &&& s.attempts.len() <= usize::MAX
    &&& forall|i: int|
        0 <= i < s.attempts.len() ==> ((#[trigger] s.attempts[i] is Committing) <==> s.holder
            == Some(i as usize))
    &&& s.holder matches Some(h) ==> h < s.attempts.len()
    &&& s.won <==> exists|i: int| 0 <= i < s.attempts.len() && #[trigger] s.attempts[i] is Won
    &&& forall|i: int, j: int|
        0 <= i < s.attempts.len() && 0 <= j < s.attempts.len() && #[trigger] s.attempts[i] is Won
            && #[trigger] s.attempts[j] is Won ==> i == j
    &&& s.won ==> s.holder is None
    &&& forall|i: int|
        0 <= i < s.attempts.len() && #[trigger] s.attempts[i] is Waiting ==> s.holder is Some
    &&& forall|i: int| 0 <= i < s.attempts.len() && #[trigger] s.attempts[i] is Lost ==> s.won
}

/// A race over `n` candidates that has just started: every quote requested.
pub open spec fn started(n: nat) -> RaceState {
    RaceState { attempts: Seq::new(n, |i: int| Attempt::Quoting), holder: None, won: false }
}

/// The position of the first waiting attempt at or after `k`.
pub open spec fn first_waiting_from(a: Seq<Attempt>, k: int) -> Option<int>
    decreases a.len() - k,
{
    if k < 0 || k >= a.len() {
        None
    } else if a[k] is Waiting {
        Some(k)
    } else {
        first_waiting_from(a, k + 1)
    }
}

/// Every waiting attempt marked lost.
pub open spec fn lose_waiting(a: Seq<Attempt>) -> Seq<Attempt> {
    a.map_values(|x: Attempt| if x is Waiting { Attempt::Lost } else { x })
}

/// What the answer to attempt `i`'s quote request does: a failure ends the
/// attempt; a quote is dropped where the race is won, waits where the guard
/// is held, and otherwise claims the guard and is committed at once.
pub open spec fn quote_step(s: RaceState, i: int, result: Result<String, ResyClientError>) -> (
    RaceState,
    Option<(usize, String)>,
) {
    match result {
        Err(e) => (RaceState { attempts: s.attempts.update(i, Attempt::Failed(e)), ..s }, None),
        Ok(q) => if s.won {
            (RaceState { attempts: s.attempts.update(i, Attempt::Lost), ..s }, None)
        } else if s.holder is Some {
            (RaceState { attempts: s.attempts.update(i, Attempt::Waiting(q)), ..s }, None)
        } else {
            (
                RaceState {
                    attempts: s.attempts.update(i, Attempt::Committing),
                    holder: Some(i as usize),
                    won: false,
                },
                Some((i as usize, q)),
            )
        },
    }
}

/// What the answer to attempt `i`'s commit does: a confirmation wins the
/// race, and every waiting attempt loses without committing; a failure ends
/// the attempt and releases the guard, which passes to the first waiting
/// attempt, if any, whose quote is then committed.
pub open spec fn commit_step(s: RaceState, i: int, result: Result<String, ResyClientError>) -> (
    RaceState,
    Option<(usize, String)>,
) {
    match result {
        Ok(token) => (
            RaceState {
                attempts: lose_waiting(s.attempts).update(i, Attempt::Won(token)),
                holder: None,
                won: true,
            },
            None,
        ),
        Err(e) => {
            let a = s.attempts.update(i, Attempt::Failed(e));
            match first_waiting_from(a, 0) {
                Some(j) => (
                    RaceState { attempts: a.update(j, Attempt::Committing), holder: Some(j as usize), won: false },
                    Some((j as usize, a[j]->Waiting_0)),
                ),
                None => (RaceState { attempts: a, holder: None, won: s.won }, None),
            }
        },
    }
}

/// How a race ended: the confirmation of the one commit that succeeded and
/// the slot it was for, or why each slot failed.
#[derive(Debug)]
pub enum RaceOutcome {
    Success { confirmation: String, slot: usize },
    Failure { reasons: Vec<(usize, ResyClientError)> },
}

/// The message of a race that every slot lost: a summary, then each slot's
/// reason, in slot order.
pub open spec fn failure_message(reasons: Seq<(usize, ResyClientError)>) -> Seq<char>
    decreases reasons.len(),
{
    if reasons.len() == 0 {
        "Booking failure: all slots failed"@
    } else {
        failure_message(reasons.drop_last()) + "; "@ + reasons.last().1.message_spec()
    }
}

impl RaceOutcome {
    /// The confirmation of a won race; a lost one is a `BookingError` whose
    /// message carries every slot's reason.
    pub fn into_result(self) -> (r: Result<String, ResyClientError>)
        ensures
            self matches RaceOutcome::Success { confirmation, slot } ==> r == Ok::<String, ResyClientError>(confirmation),
            self matches RaceOutcome::Failure { reasons } ==> (r matches Err(e) && e is BookingError
                && e.message_spec() == failure_message(reasons@)),
    {
        match self {
            RaceOutcome::Success { confirmation, slot } => Ok(confirmation),
            RaceOutcome::Failure { reasons } => {
                let mut message = String::from_str("Booking failure: all slots failed");
                let mut i: usize = 0;
                while i < reasons.len()
                    invariant
                        i <= reasons@.len(),
                        message@ == failure_message(reasons@.subrange(0, i as int)),
                    decreases reasons@.len() - i,
                {
                    message.append("; ");
                    message.append(reasons[i].1.message().as_str());
                    proof {
                        let next = reasons@.subrange(0, i + 1);
                        assert(next.drop_last() == reasons@.subrange(0, i as int));
                    }
                    i = i + 1;
                }
                assert(reasons@.subrange(0, reasons@.len() as int) == reasons@);
                Err(ResyClientError::BookingError(message))
            },
        }
    }
}

/// Every attempt has ended: one won, or each failed or lost.
pub open spec fn settled(s: RaceState) -> bool {
    s.won || forall|i: int|
        0 <= i < s.attempts.len() ==> #[trigger] s.attempts[i] is Failed || s.attempts[i] is Lost
}

/// The outcome a settled race has.
pub open spec fn outcome_of(s: RaceState, r: RaceOutcome) -> bool {
    if s.won {
        exists|i: int|
            0 <= i < s.attempts.len() && #[trigger] s.attempts[i] is Won && r == (RaceOutcome::Success {
                confirmation: s.attempts[i]->Won_0,
                slot: i as usize,
            })
    } else {
        r matches RaceOutcome::Failure { reasons } && reasons@.len() == s.attempts.len() && forall|i: int|
            0 <= i < s.attempts.len() ==> #[trigger] reasons@[i] == (i as usize, s.attempts[i]->Failed_0)
    }
}

/// Decides the race across the candidate slots of one session.
pub struct RaceCoordinator {
    attempts: Vec<Attempt>,
    guard: ExclusivityGuard,
}

impl View for RaceCoordinator {
    type V = RaceState;

    closed spec fn view(&self) -> RaceState {
        RaceState { attempts: self.attempts@, holder: self.guard.holder, won: self.guard.won }
    }
}

impl RaceCoordinator {
    /// The invariant of the race this coordinator decides.
    pub open spec fn wf(&self) -> bool {
        race_wf(self@)
    }

    /// Starts a race over `candidates` slots, with every quote requested.
    /// With no candidate there is no race: `NotFound`.
    pub fn start(candidates: usize) -> (r: Result<RaceCoordinator, ResyClientError>)
        ensures
            candidates == 0 <==> r is Err,
            r matches Err(e) ==> e is NotFound,
            r matches Ok(c) ==> c.wf() && c@ == started(candidates as nat),
    {
        if candidates == 0 {
            return Err(ResyClientError::NotFound(String::from_str("no reservation slots available")));
        }
        let mut attempts: Vec<Attempt> = Vec::new();
        let mut i: usize = 0;
        while i < candidates
            invariant
                i <= candidates,
                attempts@ == Seq::new(i as nat, |k: int| Attempt::Quoting),
            decreases candidates - i,
        {
            attempts.push(Attempt::Quoting);
            assert(attempts@ =~= Seq::new((i + 1) as nat, |k: int| Attempt::Quoting));
            i = i + 1;
        }
        let c = RaceCoordinator { attempts, guard: ExclusivityGuard::new() };
        assert(c@.attempts =~= started(candidates as nat).attempts);
        Ok(c)
    }

    /// How attempt `slot` stands.
    pub fn attempt(&self, slot: usize) -> (r: &Attempt)
        requires
            slot < self@.attempts.len(),
        ensures
            *r == self@.attempts[slot as int],
    {
        &self.attempts[slot]
    }

    /// The number of candidates.
    pub fn candidates(&self) -> (n: usize)
        ensures
            n == self@.attempts.len(),
    {
        self.attempts.len()
    }

    /// The outcome of the race once it is settled: the winner, or every
    /// slot's failure; `None` while an attempt is still in progress.
    pub fn outcome(&self) -> (r: Option<RaceOutcome>)
        requires
            self.wf(),
        ensures
            r is None <==> !settled(self@),
            r matches Some(o) ==> outcome_of(self@, o),
    {
        let ghost s = self@;
        if self.guard.won {
            let mut w: usize = 0;
            while w < self.attempts.len()
                invariant
                    s == self@,
                    race_wf(s),
                    s.won,
                    w <= s.attempts.len(),
                    forall|k: int| 0 <= k < w ==> !(#[trigger] s.attempts[k] is Won),
                decreases s.attempts.len() - w,
            {
                if let Attempt::Won(token) = &self.attempts[w] {
                    let r = RaceOutcome::Success { confirmation: token.clone(), slot: w };
                    assert(s.attempts[w as int] is Won);
                    return Some(r);
                }
                w = w + 1;
            }
            // a won race has a winning attempt, so the loop has returned
            assert(false);
            return None;
        }
        let mut reasons: Vec<(usize, ResyClientError)> = Vec::new();
        let mut i: usize = 0;
        while i < self.attempts.len()
            invariant
                s == self@,
                race_wf(s),
                i <= s.attempts.len(),
                !s.won,
                reasons@.len() == i,
                forall|k: int| 0 <= k < i ==> #[trigger] s.attempts[k] is Failed,
                forall|k: int| 0 <= k < i ==> #[trigger] reasons@[k] == (k as usize, s.attempts[k]->Failed_0),
            decreases s.attempts.len() - i,
        {
            match &self.attempts[i] {
                Attempt::Failed(e) => {
                    reasons.push((i, e.duplicate()));
                },
                _ => {
                    assert(!settled(s)) by {
                        assert(!(s.attempts[i as int] is Failed || s.attempts[i as int] is Lost));
                    }
                    return None;
                },
            }
            i = i + 1;
        }
        Some(RaceOutcome::Failure { reasons })
    }

    /// Reports the answer to the quote request of attempt `slot`: the quote,
    /// or why the service refused it. Returns the commit to issue, if the
    /// quote may be committed now.
    pub fn quote_resolved(&mut self, slot: usize, result: Result<String, ResyClientError>) -> (r:
        Option<(usize, String)>)
        requires
            old(self).wf(),
            slot < old(self)@.attempts.len(),
            old(self)@.attempts[slot as int] is Quoting,
        ensures
            final(self).wf(),
            (final(self)@, r) == quote_step(old(self)@, slot as int, result),
    {
        let ghost s = self@;
        let ghost res = result;
        proof {
            lemma_quote_step_wf(s, slot as int, res);
        }
        match result {
            Err(e) => {
                self.attempts.set(slot, Attempt::Failed(e));
                None
            },
            Ok(q) => {
                if self.guard.won {
                    self.attempts.set(slot, Attempt::Lost);
                    None
                } else if self.guard.try_claim(slot) {
                    self.attempts.set(slot, Attempt::Committing);
                    Some((slot, q))
                } else {
                    self.attempts.set(slot, Attempt::Waiting(q));
                    None
                }
            },
        }
    }

    /// Reports the answer to the commit of attempt `slot`, which holds the
    /// guard: its confirmation, or why it failed. Returns the commit to issue
    /// next, if a failure passed the guard to a waiting attempt.
    pub fn commit_resolved(&mut self, slot: usize, result: Result<String, ResyClientError>) -> (r:
        Option<(usize, String)>)
        requires
            old(self).wf(),
            slot < old(self)@.attempts.len(),
            old(self)@.attempts[slot as int] is Committing,
        ensures
            final(self).wf(),
            (final(self)@, r) == commit_step(old(self)@, slot as int, result),
    {
        let ghost s = self@;
        let ghost res = result;
        proof {
            lemma_commit_step_wf(s, slot as int, res);
        }
        match result {
            Ok(token) => {
                let mut k: usize = 0;
                while k < self.attempts.len()
                    invariant
                        self.attempts@.len() == s.attempts.len(),
                        k <= s.attempts.len(),
                        self.guard.holder == s.holder,
                        self.guard.won == s.won,
                        forall|q: int| 0 <= q < k ==> #[trigger] self.attempts@[q] == lose_waiting(s.attempts)[q],
                        forall|q: int| k <= q < s.attempts.len() ==> #[trigger] self.attempts@[q] == s.attempts[q],
                    decreases s.attempts.len() - k,
                {
                    if matches!(self.attempts[k], Attempt::Waiting(_)) {
                        self.attempts.set(k, Attempt::Lost);
                    }
                    k = k + 1;
                }
                assert(self.attempts@ =~= lose_waiting(s.attempts));
                self.attempts.set(slot, Attempt::Won(token));
                self.guard.confirm();
                None
            },
            Err(e) => {
                self.attempts.set(slot, Attempt::Failed(e));
                self.guard.release();
                let ghost a = self.attempts@;
                proof {
                    lemma_first_waiting(a, 0);
                }
                let mut k: usize = 0;
                while k < self.attempts.len()
                    invariant
                        self.attempts@ == a,
                        k <= a.len(),
                        self.guard.holder is None,
                        !self.guard.won,
                        first_waiting_from(a, 0) == first_waiting_from(a, k as int),
                        res is Err,
                        res == result,
                        s == old(self)@,
                        a == s.attempts.update(slot as int, Attempt::Failed(res->Err_0)),
                        !s.won,
                        race_wf(commit_step(s, slot as int, res).0),
                    decreases a.len() - k,
                {
                    if let Attempt::Waiting(q) = &self.attempts[k] {
                        let quote = q.clone();
                        assert(first_waiting_from(a, k as int) == Some(k as int));
                        assert(a[k as int]->Waiting_0 == quote);
                        self.attempts.set(k, Attempt::Committing);
                        let claimed = self.guard.try_claim(k);
                        assert(claimed);
                        assert(self@.attempts =~= a.update(k as int, Attempt::Committing));
                        return Some((k, quote));
                    }
                    k = k + 1;
                }
                None
            },
        }
    }
}

/// Where the first waiting attempt at or after `k` stands.
proof fn lemma_first_waiting(a: Seq<Attempt>, k: int)
    requires
        0 <= k <= a.len(),
    ensures
        match first_waiting_from(a, k) {
            Some(j) => k <= j < a.len() && a[j] is Waiting && forall|q: int|
                k <= q < j ==> !(#[trigger] a[q] is Waiting),
            None => forall|q: int| k <= q < a.len() ==> !(#[trigger] a[q] is Waiting),
        },
    decreases a.len() - k,
{
    if k < a.len() {
        lemma_first_waiting(a, k + 1);
    }
}

/// A commit answer keeps the invariant.
proof fn lemma_commit_step_wf(s: RaceState, i: int, result: Result<String, ResyClientError>)
    requires
        race_wf(s),
        0 <= i < s.attempts.len(),
        s.attempts[i] is Committing,
    ensures
        race_wf(commit_step(s, i, result).0),
{
    let t = commit_step(s, i, result).0;
    assert(s.holder == Some(i as usize));
    assert(!s.won);
    assert forall|k: int| 0 <= k < s.attempts.len() implies !(#[trigger] s.attempts[k] is Won) by {}
    match result {
        Ok(token) => {
            assert(t.attempts[i] is Won);
            assert forall|k: int| 0 <= k < t.attempts.len() && k != i implies !(#[trigger] t.attempts[k] is Won)
                && !(t.attempts[k] is Committing) && !(t.attempts[k] is Waiting) by {
                assert(s.attempts[k] != Attempt::Committing);
            }
        },
        Err(e) => {
            let a = s.attempts.update(i, Attempt::Failed(e));
            lemma_first_waiting(a, 0);
            assert forall|k: int| 0 <= k < t.attempts.len() implies !(#[trigger] t.attempts[k] is Won) by {
                assert(!(a[k] is Won));
            }
            match first_waiting_from(a, 0) {
                Some(j) => {
                    assert forall|k: int| 0 <= k < t.attempts.len() && k != j implies !(
                    #[trigger] t.attempts[k] is Committing) by {
                        if k != i {
                            assert(s.attempts[k] != Attempt::Committing);
                        }
                    }
                },
                None => {
                    assert forall|k: int| 0 <= k < t.attempts.len() implies !(
                    #[trigger] t.attempts[k] is Committing) by {
                        if k != i {
                            assert(s.attempts[k] != Attempt::Committing);
                        }
                    }
                },
            }
        },
    }
}

/// A quote answer keeps the invariant.
proof fn lemma_quote_step_wf(s: RaceState, i: int, result: Result<String, ResyClientError>)
    requires
        race_wf(s),
        0 <= i < s.attempts.len(),
        s.attempts[i] is Quoting,
    ensures
        race_wf(quote_step(s, i, result).0),
{
    let t = quote_step(s, i, result).0;
    lemma_won_kept(s, t, i);
    assert forall|k: int| 0 <= k < t.attempts.len() && k != i implies t.attempts[k] == s.attempts[k] by {}
    assert(s.holder != Some(i as usize));
}

/// Changing one attempt that has not won, into one that has not won either,
/// keeps which attempts have won.
proof fn lemma_won_kept(s: RaceState, t: RaceState, i: int)
    requires
        0 <= i < s.attempts.len(),
        t.attempts == s.attempts.update(i, t.attempts[i]),
        !(s.attempts[i] is Won),
        !(t.attempts[i] is Won),
    ensures
        (exists|k: int| 0 <= k < s.attempts.len() && #[trigger] s.attempts[k] is Won) <==> (exists|k: int|
            0 <= k < t.attempts.len() && #[trigger] t.attempts[k] is Won),
{
    if exists|k: int| 0 <= k < s.attempts.len() && #[trigger] s.attempts[k] is Won {
        let k = choose|k: int| 0 <= k < s.attempts.len() && #[trigger] s.attempts[k] is Won;
        assert(t.attempts[k] is Won);
    }
    if exists|k: int| 0 <= k < t.attempts.len() && #[trigger] t.attempts[k] is Won {
        let k = choose|k: int| 0 <= k < t.attempts.len() && #[trigger] t.attempts[k] is Won;
        assert(s.attempts[k] is Won);
    }
}

/// An answer of the service to one attempt's call.
pub enum RaceEvent {
    Quote(usize, Result<String, ResyClientError>),
    Commit(usize, Result<String, ResyClientError>),
}

/// The coordinator accepts the event: the attempt awaits that answer.
pub open spec fn accepts(s: RaceState, ev: RaceEvent) -> bool {
    match ev {
        RaceEvent::Quote(i, _) => i < s.attempts.len() && s.attempts[i as int] is Quoting,
        RaceEvent::Commit(i, _) => i < s.attempts.len() && s.attempts[i as int] is Committing,
    }
}

/// What an event does: the next state, and the commit to issue, if any.
pub open spec fn step(s: RaceState, ev: RaceEvent) -> (RaceState, Option<(usize, String)>) {
    match ev {
        RaceEvent::Quote(i, r) => quote_step(s, i as int, r),
        RaceEvent::Commit(i, r) => commit_step(s, i as int, r),
    }
}

/// A successful commit.
pub open spec fn is_success(ev: RaceEvent) -> bool {
    ev matches RaceEvent::Commit(_, Ok(_))
}

/// Where a run of events leads: the state, how many commits succeeded, and
/// the attempts whose commits were issued, in order.
pub struct RunResult {
    pub state: RaceState,
    pub successes: nat,
    pub commits: Seq<usize>,
}

/// Runs a sequence of events from `s`, or `None` where some event is not
/// accepted in its turn.
pub open spec fn run(s: RaceState, events: Seq<RaceEvent>) -> Option<RunResult>
    decreases events.len(),
{
    if events.len() == 0 {
        Some(RunResult { state: s, successes: 0, commits: Seq::empty() })
    } else {
        match run(s, events.drop_last()) {
            Some(t) => if accepts(t.state, events.last()) {
                let (next, action) = step(t.state, events.last());
                Some(
                    RunResult {
                        state: next,
                        successes: t.successes + if is_success(events.last()) { 1nat } else { 0nat },
                        commits: match action {
                            Some((j, _)) => t.commits.push(j),
                            None => t.commits,
                        },
                    },
                )
            } else {
                None
            },
            None => None,
        }
    }
}

/// Commit exclusivity: in every session, whatever the number of candidates
/// and the order in which the service answers, at most one commit succeeds;
/// one has exactly when the race is won, and the invariant holds throughout.
pub proof fn lemma_at_most_one_success(n: nat, events: Seq<RaceEvent>)
    requires
        n <= usize::MAX,
    ensures
        run(started(n), events) matches Some(t) ==> race_wf(t.state) && t.successes <= 1 && (t.successes
            == 1 <==> t.state.won),
    decreases events.len(),
{
    if events.len() > 0 {
        lemma_at_most_one_success(n, events.drop_last());
        if let Some(t) = run(started(n), events.drop_last()) {
            let ev = events.last();
            if accepts(t.state, ev) {
                match ev {
                    RaceEvent::Quote(i, r) => {
                        lemma_quote_step_wf(t.state, i as int, r);
                    },
                    RaceEvent::Commit(i, r) => {
                        lemma_commit_step_wf(t.state, i as int, r);
                        assert(t.state.holder == Some(i));
                    },
                }
            }
        }
    } else {
        assert forall|i: int| 0 <= i < started(n).attempts.len() implies !(#[trigger] started(
            n,
        ).attempts[i] is Won) by {}
    }
}

/// An attempt whose commit was issued holds the guard, has failed, or has
/// won.
pub open spec fn committed(a: Attempt) -> bool {
    a is Committing || a is Failed || a is Won
}

/// Each quote is committed at most once: in every session no attempt's
/// commit is issued twice, so a failed commit is never retried with the same
/// quote.
pub proof fn lemma_each_quote_committed_once(n: nat, events: Seq<RaceEvent>)
    requires
        n <= usize::MAX,
    ensures
        run(started(n), events) matches Some(t) ==> forall|a: int, b: int|
            0 <= a < b < t.commits.len() ==> #[trigger] t.commits[a] != #[trigger] t.commits[b],
    decreases events.len(),
{
    lemma_commits_stay_committed(n, events);
}

/// The attempts whose commits were issued are distinct, and each holds the
/// guard, has failed, or has won.
proof fn lemma_commits_stay_committed(n: nat, events: Seq<RaceEvent>)
    requires
        n <= usize::MAX,
    ensures
        run(started(n), events) matches Some(t) ==> {
            &&& race_wf(t.state)
            &&& forall|a: int, b: int|
                0 <= a < b < t.commits.len() ==> #[trigger] t.commits[a] != #[trigger] t.commits[b]
            &&& forall|a: int|
                0 <= a < t.commits.len() ==> #[trigger] t.commits[a] < t.state.attempts.len() && committed(
                    t.state.attempts[t.commits[a] as int],
                )
        },
    decreases events.len(),
{
    lemma_at_most_one_success(n, events);
    if events.len() > 0 {
        lemma_commits_stay_committed(n, events.drop_last());
        lemma_at_most_one_success(n, events.drop_last());
        if let Some(t) = run(started(n), events.drop_last()) {
            let ev = events.last();
            if accepts(t.state, ev) {
                let (next, action) = step(t.state, ev);
                let commits = match action {
                    Some((j, _)) => t.commits.push(j),
                    None => t.commits,
                };
                match ev {
                    RaceEvent::Quote(i, r) => {
                        assert forall|a: int| 0 <= a < t.commits.len() implies t.commits[a] != i by {
                            assert(committed(t.state.attempts[t.commits[a] as int]));
                        }
                    },
                    RaceEvent::Commit(i, r) => {
                        let st = t.state;
                        if let Err(e) = r {
                            let fa = st.attempts.update(i as int, Attempt::Failed(e));
                            lemma_first_waiting(fa, 0);
                            if let Some(j) = first_waiting_from(fa, 0) {
                                assert forall|a: int| 0 <= a < t.commits.len() implies t.commits[a] != j by {
                                    assert(committed(t.state.attempts[t.commits[a] as int]));
                                }
                            }
                        }
                    },
                }
                assert forall|a: int| 0 <= a < commits.len() implies #[trigger] commits[a] < next.attempts.len()
                    && committed(next.attempts[commits[a] as int]) by {
                    if a < t.commits.len() {
                        assert(committed(t.state.attempts[t.commits[a] as int]));
                    }
                }
            }
        }
    }
}

/// Completeness: a race that is not settled has a call in flight, a quote or
/// a commit, whose answer moves it on.
pub proof fn lemma_unsettled_has_call_in_flight(s: RaceState)
    requires
        race_wf(s),
        !settled(s),
    ensures
        exists|i: int|
            0 <= i < s.attempts.len() && (#[trigger] s.attempts[i] is Quoting || s.attempts[i] is Committing),
{
    let i = choose|i: int|
        0 <= i < s.attempts.len() && !(#[trigger] s.attempts[i] is Failed || s.attempts[i] is Lost);
    if s.attempts[i] is Waiting {
        let h = s.holder->0;
        assert(s.attempts[h as int] is Committing);
    } else if s.attempts[i] is Won {
        assert(s.won);
    }
}

/// A failed quote is no loss to the race: the other candidates go on, and
/// the next quote that comes can still be committed and win.
pub proof fn lemma_failed_quote_is_local(
    s: RaceState,
    i: int,
    e: ResyClientError,
    j: int,
    q: String,
    token: String,
)
    requires
        race_wf(s),
        !s.won,
        s.holder is None,
        0 <= i < s.attempts.len(),
        0 <= j < s.attempts.len(),
        i != j,
        s.attempts[i] is Quoting,
        s.attempts[j] is Quoting,
    ensures
        ({
            let t = quote_step(s, i, Err(e)).0;
            let (u, issued) = quote_step(t, j, Ok(q));
            let w = commit_step(u, j, Ok(token)).0;
            &&& t.attempts[j] is Quoting
            &&& issued == Some((j as usize, q))
            &&& w.won
            &&& w.attempts[j] == Attempt::Won(token)
            &&& w.attempts[i] is Failed
        }),
{
}

/// Two candidates that would both succeed: the first quote claims the guard
/// and is committed; the second, answered while that commit is in flight,
/// waits, and once the first commit succeeds it loses without a commit of
/// its own. A quote answered after the win loses at once, also without a
/// commit.
pub proof fn lemma_loser_skips_commit(s: RaceState, i: int, j: int, qi: String, qj: String, token: String)
    requires
        race_wf(s),
        !s.won,
        s.holder is None,
        0 <= i < s.attempts.len(),
        0 <= j < s.attempts.len(),
        i != j,
        s.attempts[i] is Quoting,
        s.attempts[j] is Quoting,
    ensures
        ({
            let (s1, a1) = quote_step(s, i, Ok(qi));
            let (s2, a2) = quote_step(s1, j, Ok(qj));
            let (s3, a3) = commit_step(s2, i, Ok(token));
            &&& a1 == Some((i as usize, qi))
            &&& a2 is None
            &&& s2.attempts[j] is Waiting
            &&& a3 is None
            &&& s3.won
            &&& s3.attempts[i] == Attempt::Won(token)
            &&& s3.attempts[j] is Lost
        }),
        ({
            let (s1, a1) = quote_step(s, i, Ok(qi));
            let (s2, a2) = commit_step(s1, i, Ok(token));
            let (s3, a3) = quote_step(s2, j, Ok(qj));
            &&& a3 is None
            &&& s3.attempts[j] is Lost
            &&& s3.attempts[i] == Attempt::Won(token)
        }),
{
}

/// A commit that fails after claiming the guard releases it, so that a
/// candidate still waiting for its quote can claim it afterwards and win.
pub proof fn lemma_failed_commit_releases_guard(
    s: RaceState,
    i: int,
    e: ResyClientError,
    j: int,
    q: String,
    token: String,
)
    requires
        race_wf(s),
        0 <= i < s.attempts.len(),
        0 <= j < s.attempts.len(),
        s.attempts[i] is Committing,
        s.attempts[j] is Quoting,
        forall|k: int| 0 <= k < s.attempts.len() ==> !(#[trigger] s.attempts[k] is Waiting),
    ensures
        ({
            let (t, a) = commit_step(s, i, Err(e));
            let (u, issued) = quote_step(t, j, Ok(q));
            let w = commit_step(u, j, Ok(token)).0;
            &&& a is None
            &&& t.holder is None
            &&& !t.won
            &&& t.attempts[i] is Failed
            &&& issued == Some((j as usize, q))
            &&& w.won
            &&& w.attempts[j] == Attempt::Won(token)
        }),
{
    let a = s.attempts.update(i, Attempt::Failed(e));
    lemma_first_waiting(a, 0);
    assert(s.holder == Some(i as usize));
    assert(!s.won);
    assert(i != j);
}

} // verus!
