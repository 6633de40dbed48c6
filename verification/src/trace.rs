//! A whole retry run as a mathematical function of its attempt outcomes,
//! and the laws the retry algorithm obeys.

use vstd::prelude::*;
use vstd::arithmetic::power2::pow2;
use vstd::arithmetic::power2::lemma2_to64;
use vstd::arithmetic::power2::lemma_pow2_strictly_increases;
use vstd::arithmetic::power2::lemma_pow2_unfold;
use crate::event::RoomHandle;
use crate::retry::GIVE_UP_THRESHOLD_SECONDS;
use crate::retry::INITIAL_DELAY_SECONDS;
use crate::retry::Phase;
use crate::retry::RetryTask;

verus! {

/// Everything observable about one retry task's run: the sleeps performed in
/// order, the number of join attempts issued, and which terminal phase, if
/// any, was reached. At most one of `joined` and `gave_up` holds; both are
/// false for a run whose recorded outcomes end before the task does.
pub ghost struct Run {
    /// The backoff sleeps, in order, in seconds.
    pub sleeps: Seq<u64>,
    /// How many join attempts were issued.
    pub attempts: nat,
    /// Whether the task ended in the terminal `Joined` phase.
    pub joined: bool,
    /// Whether the task ended in the terminal `GivenUp` phase.
    pub gave_up: bool,
}

/// The retry algorithm as a function of the attempt outcomes. `delay` is the
/// delay the next failure would sleep for; `outcomes[i]` tells whether the
/// i-th remaining join attempt succeeds. On a failure the task sleeps the
/// current delay, doubles it, and gives up if the doubled delay crossed the
/// threshold — so the doubled delay itself is never slept.
pub open spec fn run_from(delay: u64, outcomes: Seq<bool>) -> Run
    decreases outcomes.len(),
{
    if outcomes.len() == 0 {
        Run { sleeps: Seq::empty(), attempts: 0, joined: false, gave_up: false }
    } else if outcomes[0] {
        Run { sleeps: Seq::empty(), attempts: 1, joined: true, gave_up: false }
    } else if 2 * delay > GIVE_UP_THRESHOLD_SECONDS {
        Run { sleeps: seq![delay], attempts: 1, joined: false, gave_up: true }
    } else {
        let rest = run_from((2 * delay) as u64, outcomes.skip(1));
        Run {
            sleeps: seq![delay] + rest.sleeps,
            attempts: (1 + rest.attempts) as nat,
            joined: rest.joined,
            gave_up: rest.gave_up,
        }
    }
}

/// A full task's run: the first backoff is two seconds.
pub open spec fn run(outcomes: Seq<bool>) -> Run {
    run_from(INITIAL_DELAY_SECONDS, outcomes)
}

/// From a delay of `pow2(e)` seconds, a first success after `k` failures that
/// never cross the threshold joins after exactly `k + 1` attempts, with
/// sleeps `pow2(e), pow2(e + 1), ..., pow2(e + k - 1)`.
proof fn lemma_run_from_success(e: nat, outcomes: Seq<bool>, k: int)
    requires
        1 <= e,
        0 <= k < outcomes.len(),
        outcomes[k],
        forall|j: int| 0 <= j < k ==> !outcomes[j],
        pow2((e + k) as nat) <= GIVE_UP_THRESHOLD_SECONDS,
    ensures
        ({
            let r = run_from(pow2(e) as u64, outcomes);
            &&& r.joined
            &&& !r.gave_up
            &&& r.attempts == k + 1
            &&& r.sleeps == Seq::new(k as nat, |i: int| pow2((e + i) as nat) as u64)
        }),
    decreases k,
{
    if k > 0 {
        lemma_pow2_strictly_increases(e, (e + k) as nat);
    }
    let r = run_from(pow2(e) as u64, outcomes);
    if k == 0 {
        assert(outcomes[0]);
        assert(r.sleeps =~= Seq::new(0, |i: int| pow2((e + i) as nat) as u64));
    } else {
        assert(!outcomes[0]);
        lemma_pow2_unfold((e + 1) as nat);
        if k > 1 {
            lemma_pow2_strictly_increases((e + 1) as nat, (e + k) as nat);
        }
        let rest_out = outcomes.skip(1);
        assert forall|j: int| 0 <= j < k - 1 implies !rest_out[j] by {
            assert(rest_out[j] == outcomes[j + 1]);
        }
        assert(rest_out[k - 1] == outcomes[k]);
        lemma_run_from_success(e + 1, rest_out, k - 1);
        let rest = run_from(pow2((e + 1) as nat) as u64, rest_out);
        let combined = seq![pow2(e) as u64] + rest.sleeps;
        assert(r.sleeps == combined);
        assert forall|i: int| 0 <= i < k implies #[trigger] combined[i] == pow2(
            (e + i) as nat,
        ) as u64 by {
            if i > 0 {
                assert(rest.sleeps[i - 1] == pow2((e + 1 + (i - 1)) as nat) as u64);
            }
        }
        assert(r.sleeps =~= Seq::new(k as nat, |i: int| pow2((e + i) as nat) as u64));
    }
}

/// From a delay of `pow2(e)` seconds, nothing but failures abandons the
/// invite after exactly `12 - e` further attempts: the delay that would
/// follow the last of them is `pow2(12) == 4096`, past the threshold.
proof fn lemma_run_from_all_fail(e: nat, outcomes: Seq<bool>)
    requires
        1 <= e <= 11,
        outcomes.len() >= 12 - e,
        forall|i: int| 0 <= i < 12 - e ==> !outcomes[i],
    ensures
        ({
            let r = run_from(pow2(e) as u64, outcomes);
            &&& r.gave_up
            &&& !r.joined
            &&& r.attempts == 12 - e
            &&& r.sleeps == Seq::new((12 - e) as nat, |i: int| pow2((e + i) as nat) as u64)
        }),
    decreases 12 - e,
{
    lemma2_to64();
    if e < 11 {
        lemma_pow2_strictly_increases(e, 11);
    }
    lemma_pow2_unfold((e + 1) as nat);
    assert(!outcomes[0]);
    let r = run_from(pow2(e) as u64, outcomes);
    if e == 11 {
        assert(2 * (pow2(e) as u64) > GIVE_UP_THRESHOLD_SECONDS);
        assert(r.sleeps =~= Seq::new(1, |i: int| pow2((e + i) as nat) as u64));
    } else {
        if e + 1 < 11 {
            lemma_pow2_strictly_increases((e + 1) as nat, 11);
        }
        let rest_out = outcomes.skip(1);
        assert forall|i: int| 0 <= i < 12 - (e + 1) implies !rest_out[i] by {
            assert(rest_out[i] == outcomes[i + 1]);
        }
        lemma_run_from_all_fail(e + 1, rest_out);
        let rest = run_from(pow2((e + 1) as nat) as u64, rest_out);
        let combined = seq![pow2(e) as u64] + rest.sleeps;
        assert(r.sleeps == combined);
        assert forall|i: int| 0 <= i < 12 - e implies #[trigger] combined[i] == pow2(
            (e + i) as nat,
        ) as u64 by {
            if i > 0 {
                assert(rest.sleeps[i - 1] == pow2((e + 1 + (i - 1)) as nat) as u64);
            }
        }
        assert(r.sleeps =~= Seq::new((12 - e) as nat, |i: int| pow2((e + i) as nat) as u64));
    }
}

/// Report of driving one retry task against recorded attempt outcomes.
pub struct RunReport {
    /// The backoff sleeps performed, in order, in seconds.
    pub sleeps: Vec<u64>,
    /// How many join attempts were issued.
    pub attempts: u64,
    /// The phase the task was left in: `Joined`, `GivenUp`, or `Attempting`
    /// when the recorded outcomes ended before the task did.
    pub phase: Phase,
}

/// The drive loop's bookkeeping for one task, after `i` of its `outcomes`
/// have been processed: the accumulated sleeps and attempts account exactly
/// for the difference between the full run and the run still ahead of the
/// task; a finished task accounts for the full run outright.
spec fn drive_state_ok(
    task: RetryTask,
    sleeps: Seq<u64>,
    i: nat,
    outcomes: Seq<bool>,
) -> bool {
    &&& i <= outcomes.len()
    &&& !(task.phase is Backoff)
    &&& (task.phase is Attempting ==> {
        &&& task.wf()
        &&& run(outcomes).sleeps == sleeps + run_from(
            task.delay_seconds,
            outcomes.skip(i as int),
        ).sleeps
        &&& run(outcomes).attempts == i + run_from(
            task.delay_seconds,
            outcomes.skip(i as int),
        ).attempts
        &&& run(outcomes).joined == run_from(task.delay_seconds, outcomes.skip(i as int)).joined
        &&& run(outcomes).gave_up == run_from(task.delay_seconds, outcomes.skip(i as int)).gave_up
    })
    &&& (task.phase is Joined ==> {
        &&& run(outcomes).sleeps == sleeps
        &&& run(outcomes).attempts == i
        &&& run(outcomes).joined
        &&& !run(outcomes).gave_up
    })
    &&& (task.phase is GivenUp ==> {
        &&& run(outcomes).sleeps == sleeps
        &&& run(outcomes).attempts == i
        &&& !run(outcomes).joined
        &&& run(outcomes).gave_up
    })
}

/// A freshly spawned task with nothing processed accounts for the full run.
proof fn lemma_drive_state_init(task: RetryTask, outcomes: Seq<bool>)
    requires
        task.phase is Attempting,
        task.wf(),
        task.delay_seconds == INITIAL_DELAY_SECONDS,
    ensures
        drive_state_ok(task, Seq::<u64>::empty(), 0, outcomes),
{
    assert(outcomes.skip(0) =~= outcomes);
    assert(Seq::<u64>::empty() + run_from(INITIAL_DELAY_SECONDS, outcomes).sleeps =~= run_from(
        INITIAL_DELAY_SECONDS,
        outcomes,
    ).sleeps);
}

/// A task whose outcomes ran out while it was still attempting has performed
/// the whole recorded run, which reached no terminal phase.
proof fn lemma_drive_state_exhausted(task: RetryTask, sleeps: Seq<u64>, outcomes: Seq<bool>)
    requires
        task.phase is Attempting,
        drive_state_ok(task, sleeps, outcomes.len(), outcomes),
    ensures
        run(outcomes).sleeps == sleeps,
        run(outcomes).attempts == outcomes.len(),
        !run(outcomes).joined,
        !run(outcomes).gave_up,
{
    assert(outcomes.skip(outcomes.len() as int) =~= Seq::<bool>::empty());
    assert(sleeps + run_from(task.delay_seconds, Seq::<bool>::empty()).sleeps =~= sleeps);
}

/// One whole step of a live task: feed it the outcome of its next join
/// attempt, record the sleep a failure asks for, and let the elapsed backoff
/// decide between retry and give-up. Touches nothing but the one task's own
/// state and bookkeeping.
fn drive_step(
    task: &mut RetryTask,
    sleeps: &mut Vec<u64>,
    success: bool,
    i: usize,
    Ghost(outcomes): Ghost<Seq<bool>>,
)
    requires
        old(task).phase is Attempting,
        i < outcomes.len(),
        outcomes[i as int] == success,
        drive_state_ok(*old(task), old(sleeps)@, i as nat, outcomes),
    ensures
        drive_state_ok(*final(task), final(sleeps)@, (i + 1) as nat, outcomes),
        final(task).room == old(task).room,
{
    let ghost suffix = outcomes.skip(i as int);
    proof {
        assert(suffix[0] == outcomes[i as int]);
        assert(suffix.skip(1) =~= outcomes.skip(i as int + 1));
    }
    if success {
        let _directive = task.record_attempt(true);
        proof {
            assert(run(outcomes).sleeps =~= sleeps@);
        }
    } else {
        let pause = task.delay_seconds;
        let _directive = task.record_attempt(false);
        sleeps.push(pause);
        let _decision = task.backoff_elapsed();
        proof {
            if 2 * pause > GIVE_UP_THRESHOLD_SECONDS {
                assert(run(outcomes).sleeps =~= sleeps@);
            } else {
                assert(run(outcomes).sleeps =~= sleeps@ + run_from(
                    task.delay_seconds,
                    outcomes.skip(i as int + 1),
                ).sleeps);
            }
        }
    }
}

/// Drive a fresh retry task for `room`, reading the outcome of the i-th join
/// attempt from `outcomes[i]`, until the task reaches a terminal phase or the
/// outcomes are exhausted. The report matches the mathematical run exactly:
/// the task sleeps, attempts and terminates precisely as [`run`] says. This is
/// the whole retry loop with the two outside effects — the join call and the
/// sleep — replaced by their recorded outcomes.
pub fn drive(room: RoomHandle, outcomes: &Vec<bool>) -> (r: RunReport)
    ensures
        r.sleeps@ == run(outcomes@).sleeps,
        r.attempts == run(outcomes@).attempts,
        (r.phase is Joined) == run(outcomes@).joined,
        (r.phase is GivenUp) == run(outcomes@).gave_up,
        !(r.phase is Backoff),
{
    let ghost full = outcomes@;
    let mut task = RetryTask::new(room);
    let mut sleeps: Vec<u64> = Vec::new();
    let mut i: usize = 0;
    proof {
        lemma_drive_state_init(task, full);
    }
    while task.phase == Phase::Attempting && i < outcomes.len()
        invariant
            full == outcomes@,
            drive_state_ok(task, sleeps@, i as nat, full),
        decreases full.len() - i,
    {
        let success = outcomes[i];
        drive_step(&mut task, &mut sleeps, success, i, Ghost(full));
        i = i + 1;
    }
    proof {
        if task.phase is Attempting {
            lemma_drive_state_exhausted(task, sleeps@, full);
        }
    }
    let attempts = i as u64;
    RunReport { sleeps, attempts, phase: task.phase }
}

/// Independence of concurrent retry tasks: drive two tasks, one per invite,
/// interleaving their steps as `schedule` dictates — entry `s` hands the next
/// step to the first task when true, to the second when false; a step handed
/// to a task that is finished, or whose outcomes ran out, does nothing. After
/// the schedule, each task is driven to the end of its own outcomes. Whatever
/// the schedule, each report equals the one [`drive`] yields for that task
/// alone: neither task's sleeps, attempts or terminal phase depend on the
/// other task or on the interleaving.
pub fn drive_pair(
    room_a: RoomHandle,
    outcomes_a: &Vec<bool>,
    room_b: RoomHandle,
    outcomes_b: &Vec<bool>,
    schedule: &Vec<bool>,
) -> (pair: (RunReport, RunReport))
    ensures
        pair.0.sleeps@ == run(outcomes_a@).sleeps,
        pair.0.attempts == run(outcomes_a@).attempts,
        (pair.0.phase is Joined) == run(outcomes_a@).joined,
        (pair.0.phase is GivenUp) == run(outcomes_a@).gave_up,
        pair.1.sleeps@ == run(outcomes_b@).sleeps,
        pair.1.attempts == run(outcomes_b@).attempts,
        (pair.1.phase is Joined) == run(outcomes_b@).joined,
        (pair.1.phase is GivenUp) == run(outcomes_b@).gave_up,
{
    let ghost full_a = outcomes_a@;
    let ghost full_b = outcomes_b@;
    let mut task_a = RetryTask::new(room_a);
    let mut task_b = RetryTask::new(room_b);
    let mut sleeps_a: Vec<u64> = Vec::new();
    let mut sleeps_b: Vec<u64> = Vec::new();
    let mut i_a: usize = 0;
    let mut i_b: usize = 0;
    proof {
        lemma_drive_state_init(task_a, full_a);
        lemma_drive_state_init(task_b, full_b);
    }
    let mut s: usize = 0;
    while s < schedule.len()
        invariant
            full_a == outcomes_a@,
            full_b == outcomes_b@,
            s <= schedule@.len(),
            drive_state_ok(task_a, sleeps_a@, i_a as nat, full_a),
            drive_state_ok(task_b, sleeps_b@, i_b as nat, full_b),
        decreases schedule@.len() - s,
    {
        if schedule[s] {
            if task_a.phase == Phase::Attempting && i_a < outcomes_a.len() {
                let success = outcomes_a[i_a];
                drive_step(&mut task_a, &mut sleeps_a, success, i_a, Ghost(full_a));
                i_a = i_a + 1;
            }
        } else {
            if task_b.phase == Phase::Attempting && i_b < outcomes_b.len() {
                let success = outcomes_b[i_b];
                drive_step(&mut task_b, &mut sleeps_b, success, i_b, Ghost(full_b));
                i_b = i_b + 1;
            }
        }
        s = s + 1;
    }
    while task_a.phase == Phase::Attempting && i_a < outcomes_a.len()
        invariant
            full_a == outcomes_a@,
            drive_state_ok(task_a, sleeps_a@, i_a as nat, full_a),
        decreases full_a.len() - i_a,
    {
        let success = outcomes_a[i_a];
        drive_step(&mut task_a, &mut sleeps_a, success, i_a, Ghost(full_a));
        i_a = i_a + 1;
    }
    while task_b.phase == Phase::Attempting && i_b < outcomes_b.len()
        invariant
            full_b == outcomes_b@,
            drive_state_ok(task_b, sleeps_b@, i_b as nat, full_b),
        decreases full_b.len() - i_b,
    {
        let success = outcomes_b[i_b];
        drive_step(&mut task_b, &mut sleeps_b, success, i_b, Ghost(full_b));
        i_b = i_b + 1;
    }
    proof {
        if task_a.phase is Attempting {
            lemma_drive_state_exhausted(task_a, sleeps_a@, full_a);
        }
        if task_b.phase is Attempting {
            lemma_drive_state_exhausted(task_b, sleeps_b@, full_b);
        }
    }
    let report_a = RunReport { sleeps: sleeps_a, attempts: i_a as u64, phase: task_a.phase };
    let report_b = RunReport { sleeps: sleeps_b, attempts: i_b as u64, phase: task_b.phase };
    (report_a, report_b)
}

/// Backoff doubling, and success ends the run: if the first `k` join attempts
/// fail and the `(k + 1)`-th succeeds before the threshold is crossed, the
/// task ends in the terminal `Joined` phase after exactly `k + 1` attempts —
/// so exactly one success is signalled and nothing follows it — and the
/// sleeps between consecutive attempts are exactly `2, 4, 8, ..., 2^k`
/// seconds. Outcomes past the success never matter.
pub proof fn lemma_success_terminates(outcomes: Seq<bool>, k: int)
    requires
        0 <= k <= 10,
        k < outcomes.len(),
        outcomes[k],
        forall|j: int| 0 <= j < k ==> !outcomes[j],
    ensures
        run(outcomes).joined,
        !run(outcomes).gave_up,
        run(outcomes).attempts == k + 1,
        run(outcomes).sleeps == Seq::new(k as nat, |i: int| pow2((i + 1) as nat) as u64),
{
    lemma2_to64();
    if 1 + k < 11 {
        lemma_pow2_strictly_increases((1 + k) as nat, 11);
    }
    lemma_run_from_success(1, outcomes, k);
    assert(run(outcomes).sleeps =~= Seq::new(k as nat, |i: int| pow2((i + 1) as nat) as u64));
}

/// Give-up threshold: with nothing but failures, the task abandons the invite
/// after exactly eleven join attempts, having slept `2, 4, ..., 2048` seconds
/// between them. The doubled delay that crossed the threshold — 4096 seconds —
/// is never slept, and no twelfth attempt is tied to it: every sleep stays
/// within the threshold.
pub proof fn lemma_give_up_threshold(outcomes: Seq<bool>)
    requires
        outcomes.len() >= 11,
        forall|i: int| 0 <= i < 11 ==> !outcomes[i],
    ensures
        run(outcomes).gave_up,
        !run(outcomes).joined,
        run(outcomes).attempts == 11,
        run(outcomes).sleeps == Seq::new(11, |i: int| pow2((i + 1) as nat) as u64),
        forall|i: int|
            0 <= i < run(outcomes).sleeps.len() ==> run(outcomes).sleeps[i]
                <= GIVE_UP_THRESHOLD_SECONDS,
{
    lemma2_to64();
    lemma_run_from_all_fail(1, outcomes);
    assert(run(outcomes).sleeps =~= Seq::new(11, |i: int| pow2((i + 1) as nat) as u64));
    assert forall|i: int|
        0 <= i < run(outcomes).sleeps.len() implies run(outcomes).sleeps[i]
        <= GIVE_UP_THRESHOLD_SECONDS by {
        if i + 1 < 11 {
            lemma_pow2_strictly_increases((i + 1) as nat, 11);
        }
    }
}

} // verus!
