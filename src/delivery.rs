use vstd::prelude::*;

use crate::codec::RawActivity;
use crate::error::FederationError;
use crate::inbox::{Activity, ActivityKind};
use crate::store::FollowRow;
use crate::uri::{url_parse, Uri};

verus! {

/// Seconds before the first retry.
pub const BACKOFF_BASE_SECS: u64 = 30;

/// The longest wait between two attempts, in seconds.
pub const BACKOFF_CAP_SECS: u64 = 3600;

/// Seconds after the first attempt beyond which a job is abandoned.
pub const ABANDON_AFTER_SECS: u64 = 172800;

/// The largest jitter, in percent either side of the nominal delay.
pub const JITTER_MAX_PERCENT: u64 = 25;

/// The nominal wait after the `n`-th failed attempt (counted from 0): 30 s,
/// doubled after each failure, never above an hour.
pub open spec fn backoff_spec(n: nat) -> nat
    decreases n,
{
    if n == 0 {
        BACKOFF_BASE_SECS as nat
    } else if 2 * backoff_spec((n - 1) as nat) >= BACKOFF_CAP_SECS {
        BACKOFF_CAP_SECS as nat
    } else {
        2 * backoff_spec((n - 1) as nat)
    }
}

pub proof fn lemma_backoff_bounds(n: nat)
    ensures
        BACKOFF_BASE_SECS <= backoff_spec(n) <= BACKOFF_CAP_SECS,
    decreases n,
{
    if n > 0 {
        lemma_backoff_bounds((n - 1) as nat);
    }
}

/// The nominal wait after the `attempt`-th failed attempt.
pub fn backoff_delay(attempt: u64) -> (r: u64)
    ensures
        r == backoff_spec(attempt as nat),
        BACKOFF_BASE_SECS <= r <= BACKOFF_CAP_SECS,
{
    let mut d: u64 = BACKOFF_BASE_SECS;
    let mut i: u64 = 0;
    while i < attempt && d < BACKOFF_CAP_SECS
        invariant
            i <= attempt,
            d == backoff_spec(i as nat),
            BACKOFF_BASE_SECS <= d <= BACKOFF_CAP_SECS,
        decreases attempt - i,
    {
        d = if 2 * d >= BACKOFF_CAP_SECS {
            BACKOFF_CAP_SECS
        } else {
            2 * d
        };
        i = i + 1;
    }
    proof {
        if i < attempt {
            lemma_backoff_capped(i as nat, attempt as nat);
        }
    }
    d
}

/// Once the wait has reached the cap it stays there.
pub proof fn lemma_backoff_capped(i: nat, n: nat)
    requires
        i <= n,
        backoff_spec(i) == BACKOFF_CAP_SECS,
    ensures
        backoff_spec(n) == BACKOFF_CAP_SECS,
    decreases n - i,
{
    if i < n {
        lemma_backoff_bounds(i);
        assert(backoff_spec((i + 1) as nat) == BACKOFF_CAP_SECS);
        lemma_backoff_capped((i + 1) as nat, n);
    }
}

/// A delay spread by jitter: `jitter` runs from 0 to 50 and maps to a factor
/// from 75% to 125% of the nominal delay, in whole seconds, never below three
/// quarters of the nominal delay.
pub open spec fn jittered_spec(delay: nat, jitter: nat) -> nat {
    let x = (delay * ((100 - JITTER_MAX_PERCENT) + jitter) / 100) as nat;
    if 4 * x < 3 * delay {
        ((3 * delay + 3) / 4) as nat
    } else {
        x
    }
}

pub fn jittered_delay(delay: u64, jitter: u64) -> (r: u64)
    requires
        delay <= BACKOFF_CAP_SECS,
        jitter <= 2 * JITTER_MAX_PERCENT,
    ensures
        r == jittered_spec(delay as nat, jitter as nat),
        3 * delay <= 4 * r <= 5 * delay,
        r <= BACKOFF_CAP_SECS + BACKOFF_CAP_SECS / 4,
{
    assert(delay * (75 + jitter) <= 3600 * 125) by (nonlinear_arith)
        requires
            delay <= 3600,
            jitter <= 50,
    ;
    assert(delay * (75 + jitter) <= delay * 125) by (nonlinear_arith)
        requires
            jitter <= 50,
    ;
    let x = delay * (75 + jitter) / 100;
    if 4 * x < 3 * delay {
        (3 * delay + 3) / 4
    } else {
        x
    }
}

/// What a delivery attempt came to.
#[derive(Clone, Copy, Debug, PartialEq, Eq, Structural)]
pub enum Outcome {
    /// The peer answered 2xx.
    Delivered,
    /// A network error or a 5xx: worth retrying.
    Transient,
    /// A 4xx other than 410: the inbox refuses this activity for good.
    Refused,
    /// 410 Gone: the target actor is gone.
    Gone,
}

/// Classifies a delivery attempt by the status that came back, `None` where
/// the network failed: 2xx is delivered, 410 gone, another 4xx refused, and
/// anything else transient.
pub fn outcome_of_status(status: Option<u16>) -> (r: Outcome)
    ensures
        r == (match status {
            None => Outcome::Transient,
            Some(s) => if 200 <= s < 300 {
                Outcome::Delivered
            } else if s == 410 {
                Outcome::Gone
            } else if 400 <= s < 500 {
                Outcome::Refused
            } else {
                Outcome::Transient
            },
        }),
{
    match status {
        None => Outcome::Transient,
        Some(s) => if 200 <= s && s < 300 {
            Outcome::Delivered
        } else if s == 410 {
            Outcome::Gone
        } else if 400 <= s && s < 500 {
            Outcome::Refused
        } else {
            Outcome::Transient
        },
    }
}

/// Where a delivery job stands.
#[derive(Clone, Copy, Debug, PartialEq, Eq, Structural)]
pub enum JobStatus {
    Pending,
    Delivered,
    Failed,
    /// The target actor answered 410: its row is tombstoned.
    Tombstoned,
}

/// The persisted state of one (activity, inbox) delivery job.
#[derive(Clone, Copy, Debug, PartialEq, Eq, Structural)]
pub struct DeliveryJob {
    pub attempt: u64,
    pub first_attempt_at: u64,
    pub next_attempt_at: u64,
    pub status: JobStatus,
}

/// The job after an attempt at time `now` came to `outcome`, with the given
/// jitter on the next wait.
pub open spec fn step_spec(job: DeliveryJob, now: u64, outcome: Outcome, jitter: u64) -> DeliveryJob {
    if job.status != JobStatus::Pending {
        job
    } else {
        match outcome {
            Outcome::Delivered => DeliveryJob {
                attempt: (job.attempt + 1) as u64,
                status: JobStatus::Delivered,
                ..job
            },
            Outcome::Refused => DeliveryJob {
                attempt: (job.attempt + 1) as u64,
                status: JobStatus::Failed,
                ..job
            },
            Outcome::Gone => DeliveryJob {
                attempt: (job.attempt + 1) as u64,
                status: JobStatus::Tombstoned,
                ..job
            },
            Outcome::Transient => {
                let next = now + jittered_spec(backoff_spec(job.attempt as nat), jitter as nat);
                if next > job.first_attempt_at + ABANDON_AFTER_SECS {
                    DeliveryJob { attempt: (job.attempt + 1) as u64, status: JobStatus::Failed, ..job }
                } else {
                    DeliveryJob {
                        attempt: (job.attempt + 1) as u64,
                        next_attempt_at: next as u64,
                        ..job
                    }
                }
            },
        }
    }
}

impl DeliveryJob {
    /// A fresh job whose first attempt is due at `now`.
    pub open spec fn new_spec(now: u64) -> DeliveryJob {
        DeliveryJob { attempt: 0, first_attempt_at: now, next_attempt_at: now, status: JobStatus::Pending }
    }

    /// A pending job does not wait beyond the abandonment deadline.
    pub open spec fn wf(&self) -> bool {
        &&& self.first_attempt_at <= self.next_attempt_at
        &&& self.status == JobStatus::Pending ==> self.next_attempt_at <= self.first_attempt_at
            + ABANDON_AFTER_SECS
    }

    /// A fresh job whose first attempt is due at `now`.
    pub fn new(now: u64) -> (r: DeliveryJob)
        ensures
            r.wf(),
            r == (DeliveryJob {
                attempt: 0,
                first_attempt_at: now,
                next_attempt_at: now,
                status: JobStatus::Pending,
            }),
    {
        DeliveryJob { attempt: 0, first_attempt_at: now, next_attempt_at: now, status: JobStatus::Pending }
    }

    /// Records an attempt made at `now`: success and refusal end the job; a
    /// transient failure schedules a retry after the backoff, or abandons the
    /// job where the retry would fall after the deadline. A job that has ended
    /// is left as it is.
    pub fn record(&mut self, now: u64, outcome: Outcome, jitter: u64)
        requires
            old(self).wf(),
            old(self).attempt < u64::MAX,
            old(self).first_attempt_at <= now,
            now <= u64::MAX - 2 * BACKOFF_CAP_SECS - ABANDON_AFTER_SECS,
            jitter <= 2 * JITTER_MAX_PERCENT,
        ensures
            *final(self) == step_spec(*old(self), now, outcome, jitter),
            final(self).wf(),
    {
        if self.status != JobStatus::Pending {
            return;
        }
        match outcome {
            Outcome::Delivered => {
                self.attempt = self.attempt + 1;
                self.status = JobStatus::Delivered;
            },
            Outcome::Refused => {
                self.attempt = self.attempt + 1;
                self.status = JobStatus::Failed;
            },
            Outcome::Gone => {
                self.attempt = self.attempt + 1;
                self.status = JobStatus::Tombstoned;
            },
            Outcome::Transient => {
                let wait = jittered_delay(backoff_delay(self.attempt), jitter);
                let next = now + wait;
                self.attempt = self.attempt + 1;
                if next <= self.first_attempt_at + ABANDON_AFTER_SECS {
                    self.next_attempt_at = next;
                } else {
                    self.status = JobStatus::Failed;
                }
            },
        }
    }
}

/// An attempt: when it was made, what it came to, and the jitter drawn for
/// the wait after it.
pub type Attempt = (u64, Outcome, u64);

/// The job after a run of attempts.
pub open spec fn run_spec(job: DeliveryJob, attempts: Seq<Attempt>) -> DeliveryJob
    decreases attempts.len(),
{
    if attempts.len() == 0 {
        job
    } else {
        let a = attempts[0];
        run_spec(step_spec(job, a.0, a.1, a.2), attempts.drop_first())
    }
}

/// How many attempts of a run were recorded as a success.
pub open spec fn successes_spec(job: DeliveryJob, attempts: Seq<Attempt>) -> nat
    decreases attempts.len(),
{
    if attempts.len() == 0 {
        0
    } else {
        let a = attempts[0];
        let next = step_spec(job, a.0, a.1, a.2);
        let here: nat = if job.status == JobStatus::Pending && next.status == JobStatus::Delivered {
            1
        } else {
            0
        };
        here + successes_spec(next, attempts.drop_first())
    }
}

/// A job records at most one success whatever its attempts come to, and it
/// records one exactly when it started pending and ends delivered: a peer that
/// fails any number of times and then accepts sees one success recorded.
pub proof fn lemma_delivered_once(job: DeliveryJob, attempts: Seq<Attempt>)
    ensures
        successes_spec(job, attempts) <= 1,
        successes_spec(job, attempts) == 1 <==> (job.status == JobStatus::Pending && run_spec(
            job,
            attempts,
        ).status == JobStatus::Delivered),
    decreases attempts.len(),
{
    if attempts.len() > 0 {
        let a = attempts[0];
        let next = step_spec(job, a.0, a.1, a.2);
        lemma_delivered_once(next, attempts.drop_first());
        if job.status != JobStatus::Pending {
            lemma_ended_stays(job, attempts);
        } else if next.status != JobStatus::Pending {
            lemma_ended_stays(next, attempts.drop_first());
        }
    }
}

/// A job that has ended is left as it is by any further attempt.
pub proof fn lemma_ended_stays(job: DeliveryJob, attempts: Seq<Attempt>)
    requires
        job.status != JobStatus::Pending,
    ensures
        run_spec(job, attempts) == job,
        successes_spec(job, attempts) == 0,
    decreases attempts.len(),
{
    if attempts.len() > 0 {
        lemma_ended_stays(job, attempts.drop_first());
    }
}

/// A pending job never waits past the deadline, and a transient failure at
/// or after the deadline abandons it as failed.
pub proof fn lemma_retry_cap(job: DeliveryJob, now: u64, jitter: u64)
    requires
        job.wf(),
        job.status == JobStatus::Pending,
        now >= job.first_attempt_at + ABANDON_AFTER_SECS,
    ensures
        job.next_attempt_at <= job.first_attempt_at + ABANDON_AFTER_SECS,
        step_spec(job, now, Outcome::Transient, jitter).status == JobStatus::Failed,
{
    lemma_backoff_bounds(job.attempt as nat);
    let d = backoff_spec(job.attempt as nat);
    assert(d * ((100 - JITTER_MAX_PERCENT) + jitter) / 100 >= 1) by (nonlinear_arith)
        requires
            d >= 30,
            jitter >= 0,
    ;
}

/// Whether an attempt is one that a run of a job may record: made no earlier
/// than the first attempt, early enough that its retry time is a `u64`, with
/// a jitter in range, and a transient failure.
pub open spec fn dead_peer_attempt(job: DeliveryJob, a: Attempt) -> bool {
    &&& job.first_attempt_at <= a.0
    &&& a.0 <= u64::MAX - 2 * BACKOFF_CAP_SECS - ABANDON_AFTER_SECS
    &&& a.1 == Outcome::Transient
    &&& a.2 <= 2 * JITTER_MAX_PERCENT
}

/// One transient failure keeps a job well formed and its first attempt time.
pub proof fn lemma_step_transient(job: DeliveryJob, a: Attempt)
    requires
        job.wf(),
        job.attempt < u64::MAX,
        dead_peer_attempt(job, a),
    ensures
        step_spec(job, a.0, a.1, a.2).wf(),
        step_spec(job, a.0, a.1, a.2).first_attempt_at == job.first_attempt_at,
        job.status == JobStatus::Pending ==> step_spec(job, a.0, a.1, a.2).attempt == job.attempt + 1,
        job.status != JobStatus::Pending ==> step_spec(job, a.0, a.1, a.2) == job,
{
    lemma_backoff_bounds(job.attempt as nat);
    let d = backoff_spec(job.attempt as nat);
    let j = a.2 as nat;
    assert(d * ((100 - JITTER_MAX_PERCENT) + j) <= 3600 * 125) by (nonlinear_arith)
        requires
            d <= 3600,
            j <= 50,
    ;
}

/// A peer that never accepts: whatever the jitter, a pending job whose
/// attempts all fail transiently never waits past the deadline, keeps its
/// first attempt time, and ends failed once an attempt is made at or after
/// the deadline; from then on nothing more is recorded, and no success ever
/// is.
pub proof fn lemma_dead_peer_abandoned(job: DeliveryJob, attempts: Seq<Attempt>)
    requires
        job.wf(),
        job.attempt < u64::MAX - attempts.len(),
        forall|k: int| 0 <= k < attempts.len() ==> dead_peer_attempt(job, #[trigger] attempts[k]),
    ensures
        run_spec(job, attempts).wf(),
        run_spec(job, attempts).first_attempt_at == job.first_attempt_at,
        run_spec(job, attempts).status != JobStatus::Delivered || job.status == JobStatus::Delivered,
        job.status == JobStatus::Pending && (exists|k: int|
            0 <= k < attempts.len() && (#[trigger] attempts[k]).0 >= job.first_attempt_at
                + ABANDON_AFTER_SECS) ==> run_spec(job, attempts).status == JobStatus::Failed,
        successes_spec(job, attempts) == 0,
    decreases attempts.len(),
{
    if attempts.len() > 0 {
        let a = attempts[0];
        let next = step_spec(job, a.0, a.1, a.2);
        lemma_step_transient(job, a);
        let rest = attempts.drop_first();
        assert forall|k: int| 0 <= k < rest.len() implies dead_peer_attempt(next, #[trigger] rest[k]) by {
            assert(rest[k] == attempts[k + 1]);
        }
        lemma_dead_peer_abandoned(next, rest);
        if job.status == JobStatus::Pending && a.0 >= job.first_attempt_at + ABANDON_AFTER_SECS {
            lemma_retry_cap(job, a.0, a.2);
            lemma_ended_stays(next, rest);
        }
        if job.status == JobStatus::Pending && (exists|k: int|
            0 <= k < attempts.len() && (#[trigger] attempts[k]).0 >= job.first_attempt_at
                + ABANDON_AFTER_SECS) {
            let k = choose|k: int|
                0 <= k < attempts.len() && (#[trigger] attempts[k]).0 >= job.first_attempt_at
                    + ABANDON_AFTER_SECS;
            if k > 0 {
                assert(rest[k - 1] == attempts[k]);
                if next.status != JobStatus::Pending {
                    lemma_ended_stays(next, rest);
                }
            }
        }
    }
}

/// A peer that fails transiently any number of times, each failure more than
/// two hours before the deadline, and then accepts: the job is still pending
/// when it accepts, ends delivered, and records exactly one success.
pub proof fn lemma_late_success_recorded_once(
    job: DeliveryJob,
    failures: Seq<Attempt>,
    at: u64,
    jitter: u64,
)
    requires
        job.wf(),
        job.status == JobStatus::Pending,
        job.attempt < u64::MAX - failures.len(),
        forall|k: int|
            0 <= k < failures.len() ==> dead_peer_attempt(job, #[trigger] failures[k])
                && failures[k].0 + 2 * BACKOFF_CAP_SECS <= job.first_attempt_at + ABANDON_AFTER_SECS,
    ensures
        run_spec(job, failures).status == JobStatus::Pending,
        run_spec(job, failures.push((at, Outcome::Delivered, jitter))).status == JobStatus::Delivered,
        successes_spec(job, failures.push((at, Outcome::Delivered, jitter))) == 1,
    decreases failures.len(),
{
    let all = failures.push((at, Outcome::Delivered, jitter));
    if failures.len() == 0 {
        assert(all.drop_first() =~= Seq::<Attempt>::empty());
        assert(all[0] == (at, Outcome::Delivered, jitter));
        let n = step_spec(job, at, Outcome::Delivered, jitter);
        assert(run_spec(n, all.drop_first()) == n);
        assert(successes_spec(n, all.drop_first()) == 0);
    } else {
        let a = failures[0];
        let next = step_spec(job, a.0, a.1, a.2);
        lemma_step_transient(job, a);
        lemma_backoff_bounds(job.attempt as nat);
        let d = backoff_spec(job.attempt as nat);
        let j = a.2 as nat;
        assert(d * ((100 - JITTER_MAX_PERCENT) + j) / 100 <= 4500) by (nonlinear_arith)
            requires
                d <= 3600,
                j <= 50,
        ;
        assert(next.status == JobStatus::Pending);
        let rest = failures.drop_first();
        assert forall|k: int|
            0 <= k < rest.len() implies dead_peer_attempt(next, #[trigger] rest[k]) && rest[k].0 + 2
            * BACKOFF_CAP_SECS <= next.first_attempt_at + ABANDON_AFTER_SECS by {
            assert(rest[k] == failures[k + 1]);
        }
        lemma_late_success_recorded_once(next, rest, at, jitter);
        assert(all.drop_first() =~= rest.push((at, Outcome::Delivered, jitter)));
        assert(all[0] == a);
        assert(failures.drop_first() == rest);
    }
}

/// Whether a text occurs in a list of texts.
pub open spec fn has_text(v: Seq<String>, s: Seq<char>) -> bool {
    exists|i: int| 0 <= i < v.len() && #[trigger] v[i]@ == s
}

pub fn contains_text(v: &Vec<String>, s: &String) -> (r: bool)
    ensures
        r == has_text(v@, s@),
{
    let mut i: usize = 0;
    while i < v.len()
        invariant
            i <= v.len(),
            forall|j: int| 0 <= j < i ==> #[trigger] v@[j]@ != s@,
        decreases v.len() - i,
    {
        if v[i] == *s {
            return true;
        }
        i = i + 1;
    }
    false
}

/// The inboxes that one delivery job each goes to: each text of `inboxes`
/// once, by exact match.
pub fn distinct_inboxes(inboxes: &Vec<String>) -> (r: Vec<String>)
    ensures
        forall|i: int, j: int| 0 <= i < j < r@.len() ==> r@[i]@ != r@[j]@,
        forall|s: Seq<char>| has_text(r@, s) <==> has_text(inboxes@, s),
{
    let mut out: Vec<String> = Vec::new();
    let mut i: usize = 0;
    while i < inboxes.len()
        invariant
            i <= inboxes.len(),
            forall|a: int, b: int| 0 <= a < b < out@.len() ==> out@[a]@ != out@[b]@,
            forall|s: Seq<char>| has_text(out@, s) <==> has_text(inboxes@.take(i as int), s),
        decreases inboxes.len() - i,
    {
        let s = &inboxes[i];
        assert(inboxes@.take(i + 1) == inboxes@.take(i as int).push(inboxes@[i as int]));
        let ghost start = out@;
        if !contains_text(&out, s) {
            let ghost before = out@;
            out.push(s.clone());
            assert forall|t: Seq<char>| has_text(out@, t) <==> has_text(before, t) || t == s@ by {
                if has_text(out@, t) {
                    let k = choose|k: int| 0 <= k < out@.len() && #[trigger] out@[k]@ == t;
                    if k < before.len() {
                        assert(before[k]@ == t);
                    }
                }
                if has_text(before, t) {
                    let k = choose|k: int| 0 <= k < before.len() && #[trigger] before[k]@ == t;
                    assert(out@[k]@ == t);
                }
                if t == s@ {
                    assert(out@[before.len() as int]@ == t);
                }
            }
            assert(out@[before.len() as int]@ == s@);
        }
        assert(has_text(out@, s@));
        assert forall|t: Seq<char>| has_text(out@, t) <==> has_text(start, t) || t == s@ by {}
        assert forall|t: Seq<char>| has_text(inboxes@.take(i + 1), t) <==> has_text(
            inboxes@.take(i as int),
            t,
        ) || t == s@ by {
            let p = inboxes@.take(i + 1);
            let q = inboxes@.take(i as int);
            if has_text(p, t) {
                let k = choose|k: int| 0 <= k < p.len() && #[trigger] p[k]@ == t;
                if k < q.len() {
                    assert(q[k]@ == t);
                }
            }
            if has_text(q, t) {
                let k = choose|k: int| 0 <= k < q.len() && #[trigger] q[k]@ == t;
                assert(p[k]@ == t);
            }
            if t == s@ {
                assert(p[i as int]@ == t);
            }
        }
        assert forall|t: Seq<char>| has_text(out@, t) <==> has_text(inboxes@.take(i + 1), t) by {
            assert(has_text(start, t) <==> has_text(inboxes@.take(i as int), t));
        }
        i = i + 1;
    }
    assert(inboxes@.take(inboxes.len() as int) == inboxes@);
    out
}

/// One delivery job of an activity, with the inbox it goes to.
pub struct QueuedDelivery {
    pub inbox: String,
    pub job: DeliveryJob,
}

/// The jobs that delivering one activity at `now` enqueues: one fresh job per
/// distinct inbox text.
pub fn plan_deliveries(inboxes: &Vec<String>, now: u64) -> (r: Vec<QueuedDelivery>)
    ensures
        forall|i: int| 0 <= i < r@.len() ==> (#[trigger] r@[i]).job == (DeliveryJob {
            attempt: 0,
            first_attempt_at: now,
            next_attempt_at: now,
            status: JobStatus::Pending,
        }),
        forall|i: int, j: int| 0 <= i < j < r@.len() ==> r@[i].inbox@ != r@[j].inbox@,
        forall|t: Seq<char>|
            (exists|i: int| 0 <= i < r@.len() && #[trigger] r@[i].inbox@ == t) <==> has_text(
                inboxes@,
                t,
            ),
{
    let targets = distinct_inboxes(inboxes);
    let mut out: Vec<QueuedDelivery> = Vec::new();
    let mut i: usize = 0;
    while i < targets.len()
        invariant
            i <= targets@.len(),
            out@.len() == i,
            forall|k: int| 0 <= k < i ==> (#[trigger] out@[k]).inbox@ == targets@[k]@,
            forall|k: int| 0 <= k < i ==> (#[trigger] out@[k]).job == (DeliveryJob {
                attempt: 0,
                first_attempt_at: now,
                next_attempt_at: now,
                status: JobStatus::Pending,
            }),
        decreases targets@.len() - i,
    {
        out.push(QueuedDelivery { inbox: targets[i].clone(), job: DeliveryJob::new(now) });
        i = i + 1;
    }
    assert forall|t: Seq<char>|
        (exists|k: int| 0 <= k < out@.len() && #[trigger] out@[k].inbox@ == t) <==> has_text(
            targets@,
            t,
        ) by {
        if exists|k: int| 0 <= k < out@.len() && #[trigger] out@[k].inbox@ == t {
            let k = choose|k: int| 0 <= k < out@.len() && #[trigger] out@[k].inbox@ == t;
            assert(targets@[k]@ == t);
        }
        if has_text(targets@, t) {
            let k = choose|k: int| 0 <= k < targets@.len() && #[trigger] targets@[k]@ == t;
            assert(out@[k].inbox@ == t);
        }
    }
    assert forall|a: int, b: int| 0 <= a < b < out@.len() implies out@[a].inbox@
        != out@[b].inbox@ by {
        assert(out@[a].inbox@ == targets@[a]@);
        assert(out@[b].inbox@ == targets@[b]@);
    }
    out
}

/// Records an attempt of the job at position `i` of the queue; every other
/// job, to whatever inbox, is left exactly as it was.
pub fn record_at(queue: &mut Vec<QueuedDelivery>, i: usize, now: u64, outcome: Outcome, jitter: u64)
    requires
        i < old(queue)@.len(),
        old(queue)@[i as int].job.wf(),
        old(queue)@[i as int].job.attempt < u64::MAX,
        old(queue)@[i as int].job.first_attempt_at <= now,
        now <= u64::MAX - 2 * BACKOFF_CAP_SECS - ABANDON_AFTER_SECS,
        jitter <= 2 * JITTER_MAX_PERCENT,
    ensures
        final(queue)@.len() == old(queue)@.len(),
        final(queue)@[i as int].inbox == old(queue)@[i as int].inbox,
        final(queue)@[i as int].job == step_spec(old(queue)@[i as int].job, now, outcome, jitter),
        final(queue)@[i as int].job.wf(),
        forall|k: int| 0 <= k < old(queue)@.len() && k != i ==> #[trigger] final(queue)@[k] == old(queue)@[k],
{
    queue[i].job.record(now, outcome, jitter);
}

/// After a 410 from `inbox`, every pending job to it is cancelled as
/// tombstoned; other jobs are left as they are.
pub fn cancel_deliveries(queue: &mut Vec<QueuedDelivery>, inbox: &String)
    ensures
        final(queue)@.len() == old(queue)@.len(),
        forall|i: int|
            0 <= i < old(queue)@.len() ==> {
                &&& (#[trigger] final(queue)@[i]).inbox == old(queue)@[i].inbox
                &&& if old(queue)@[i].inbox@ == inbox@ && old(queue)@[i].job.status
                    == JobStatus::Pending {
                    final(queue)@[i].job == DeliveryJob {
                        status: JobStatus::Tombstoned,
                        ..old(queue)@[i].job
                    }
                } else {
                    final(queue)@[i].job == old(queue)@[i].job
                }
            },
{
    let mut i: usize = 0;
    while i < queue.len()
        invariant
            i <= queue@.len(),
            queue@.len() == old(queue)@.len(),
            forall|k: int|
                0 <= k < old(queue)@.len() ==> {
                    &&& (#[trigger] queue@[k]).inbox == old(queue)@[k].inbox
                    &&& if k < i && old(queue)@[k].inbox@ == inbox@ && old(queue)@[k].job.status
                        == JobStatus::Pending {
                        queue@[k].job == DeliveryJob {
                            status: JobStatus::Tombstoned,
                            ..old(queue)@[k].job
                        }
                    } else {
                        queue@[k].job == old(queue)@[k].job
                    }
                },
        decreases queue@.len() - i,
    {
        if queue[i].inbox == *inbox && queue[i].job.status == JobStatus::Pending {
            queue[i].job.status = JobStatus::Tombstoned;
        }
        i = i + 1;
    }
}

/// The inbox an activity goes to; an inbox that is no URL is an internal
/// error.
fn target_inbox(inbox: &str) -> (r: Result<Uri, FederationError>)
    ensures
        r is Ok <==> url_parse(inbox@) is Some,
        r is Err ==> r == Err::<Uri, FederationError>(FederationError::Internal),
        r matches Ok(u) ==> url_parse(inbox@) == Some(u@),
{
    match Uri::parse(inbox) {
        Ok(u) => Ok(u),
        Err(_) => Err(FederationError::Internal),
    }
}

/// The Follow that the owner `owner_uri` sends for its new follow `row` of
/// the user `target_uri`, to that user's inbox.
pub fn follow_delivery(row: &FollowRow, owner_uri: String, target_uri: String, inbox: &str) -> (r:
    Result<(RawActivity, Uri), FederationError>)
    ensures
        r is Ok <==> url_parse(inbox@) is Some,
        r is Err ==> r == Err::<(RawActivity, Uri), FederationError>(FederationError::Internal),
        r matches Ok((follow, to)) ==> {
            &&& follow.id@ == row.uri@
            &&& follow.actor@ == owner_uri@
            &&& follow.object@ == target_uri@
            &&& follow.kind is Follow
            &&& url_parse(inbox@) == Some(to@)
        },
{
    let to = target_inbox(inbox)?;
    Ok((RawActivity { id: row.uri.clone(), actor: owner_uri, object: target_uri, kind: ActivityKind::Follow }, to))
}

/// The Undo, with id `undo_id`, that withdraws the owner's follow `row` of
/// the user `target_uri`; it embeds that Follow and goes to the user's inbox.
pub fn undo_follow_delivery(
    row: &FollowRow,
    undo_id: String,
    owner_uri: String,
    target_uri: String,
    inbox: &str,
) -> (r: Result<(RawActivity, Uri), FederationError>)
    ensures
        r is Ok <==> url_parse(inbox@) is Some,
        r is Err ==> r == Err::<(RawActivity, Uri), FederationError>(FederationError::Internal),
        r matches Ok((undo, to)) ==> {
            &&& undo.id@ == undo_id@
            &&& undo.actor@ == owner_uri@
            &&& undo.object@ == row.uri@
            &&& undo.kind matches ActivityKind::UndoFollow { follow_actor, follow_object }
                && follow_actor@ == owner_uri@ && follow_object@ == target_uri@
            &&& url_parse(inbox@) == Some(to@)
        },
{
    let to = target_inbox(inbox)?;
    let follow_actor = owner_uri.clone();
    Ok(
        (
            RawActivity {
                id: undo_id,
                actor: owner_uri,
                object: row.uri.clone(),
                kind: ActivityKind::UndoFollow { follow_actor, follow_object: target_uri },
            },
            to,
        ),
    )
}

/// The Accept, with id `accept_id`, that the owner `owner_uri` answers the
/// received Follow `follow` with; it embeds that Follow and goes to the
/// follower's inbox `inbox`.
pub fn accept_delivery(follow: &Activity, accept_id: String, owner_uri: String, inbox: &str) -> (r:
    Result<(RawActivity, Uri), FederationError>)
    ensures
        r is Ok <==> url_parse(inbox@) is Some,
        r is Err ==> r == Err::<(RawActivity, Uri), FederationError>(FederationError::Internal),
        r matches Ok((accept, to)) ==> {
            &&& accept.id@ == accept_id@
            &&& accept.actor@ == owner_uri@
            &&& accept.object@ == follow.id@.0
            &&& accept.kind matches ActivityKind::Accept { follow_actor, follow_object }
                && follow_actor@ == follow.actor@.0 && follow_object@ == follow.object@.0
            &&& url_parse(inbox@) == Some(to@)
        },
{
    let to = target_inbox(inbox)?;
    Ok(
        (
            RawActivity {
                id: accept_id,
                actor: owner_uri,
                object: follow.id.href.clone(),
                kind: ActivityKind::Accept {
                    follow_actor: follow.actor.href.clone(),
                    follow_object: follow.object.href.clone(),
                },
            },
            to,
        ),
    )
}

} // verus!
