//! The dual-executor scheduling layer: a deterministic, seedable virtual
//! run loop (the test dispatcher) with two lanes. Foreground work runs
//! strictly in submission order; background work is picked by a seeded
//! generator among the ready tasks, so a fixed seed and a fixed task list
//! replay the same completion order every time.
//!
//! The whole run loop is mirrored by a spec-level interpreter
//! (`disp_run`), a pure function of the dispatcher state, which is what
//! makes determinism a provable statement rather than a promise.

use vstd::prelude::*;

verus! {

/// The two scheduling domains.
#[derive(Clone, Copy, PartialEq, Eq, Structural, Debug)]
pub enum Lane {
    /// Single logical queue; tasks run one at a time, in submission order.
    Foreground,
    /// Worker pool; order among ready tasks is decided by the seeded
    /// generator (unspecified in production, deterministic here).
    Background,
}

/// A unit of asynchronous work, as data: what the spawned future computes
/// and what it does with the result.
#[derive(Clone, Copy, PartialEq, Eq, Structural, Debug)]
pub enum Work {
    /// Completes with the given value.
    Value { value: u64 },
    /// Computes a wrapping sum and completes with it.
    Sum { a: u64, b: u64 },
    /// Computes a wrapping sum, then schedules a foreground continuation
    /// that writes the sum into the entity behind `target`.
    SumThenWrite { a: u64, b: u64, target: usize },
    /// A foreground continuation: writes `value` into the entity behind
    /// `target` (through a full `update_model`, so observers are notified).
    WriteEntity { target: usize, value: u64 },
}

/// The state of one scheduled task.
#[derive(Clone, Copy, PartialEq, Eq, Structural, Debug)]
pub enum TaskState {
    Pending,
    /// Cancelled before it ran; it will never complete.
    Cancelled,
    Done { result: u64 },
}

/// One task record in the dispatcher's queue.
#[derive(Clone, Copy, PartialEq, Eq, Structural, Debug)]
pub struct TaskRec {
    pub lane: Lane,
    pub ready_at: u64,
    pub work: Work,
    pub state: TaskState,
}

/// What one completed task reported: its id, its result, and the entity
/// write it asked for, if any.
#[derive(Clone, Copy, PartialEq, Eq, Structural, Debug)]
pub struct Completion {
    pub task: usize,
    pub result: u64,
    pub effect_target: Option<usize>,
    pub effect_value: u64,
}

/// A handle to a unit of asynchronous work. Cancelling it abandons work
/// that has not run yet; already-completed effects are not undone.
#[derive(PartialEq, Eq, Structural, Debug)]
pub struct Task {
    pub id: usize,
}

/// The background lane's façade. It holds no state of its own: all
/// scheduling state lives in the dispatcher it is used with.
#[derive(Clone, Copy, PartialEq, Eq, Structural, Debug)]
pub struct BackgroundExecutor {}

/// The foreground lane's façade.
#[derive(Clone, Copy, PartialEq, Eq, Structural, Debug)]
pub struct ForegroundExecutor {}

/// Ghost model of the dispatcher: the seeded generator's state, the
/// virtual clock, the task queue and the completion log so far.
#[verifier::ext_equal]
pub struct DispModel {
    pub rng: u64,
    pub now: u64,
    pub tasks: Seq<TaskRec>,
    pub completions: Seq<Completion>,
}

// ---------------------------------------------------------------------------
// Spec-level interpreter
// ---------------------------------------------------------------------------

/// Saturating addition on the virtual clock.
pub open spec fn sat_add(a: u64, b: u64) -> u64 {
    if a + b > u64::MAX {
        u64::MAX
    } else {
        (a + b) as u64
    }
}

/// One step of the seeded generator (a linear congruential step).
pub open spec fn next_rng(x: u64) -> u64 {
    vstd::wrapping::u64_specs::wrapping_add(
        vstd::wrapping::u64_specs::wrapping_mul(x, 6364136223846793005),
        1442695040888963407,
    )
}

/// A task that can run now.
pub open spec fn is_ready(t: TaskRec, now: u64) -> bool {
    t.state is Pending && t.ready_at <= now
}

/// The first ready foreground task at or after position `i`: the
/// foreground lane runs in submission order.
pub open spec fn first_ready_fg_from(tasks: Seq<TaskRec>, now: u64, i: int) -> Option<int>
    decreases tasks.len() - i,
{
    if i < 0 || i >= tasks.len() {
        None
    } else if tasks[i].lane is Foreground && is_ready(tasks[i], now) {
        Some(i)
    } else {
        first_ready_fg_from(tasks, now, i + 1)
    }
}

/// How many background tasks are ready, from position `i` on.
pub open spec fn ready_bg_count_from(tasks: Seq<TaskRec>, now: u64, i: int) -> nat
    decreases tasks.len() - i,
{
    if i < 0 || i >= tasks.len() {
        0
    } else {
        (if tasks[i].lane is Background && is_ready(tasks[i], now) {
            1nat
        } else {
            0nat
        }) + ready_bg_count_from(tasks, now, i + 1)
    }
}

/// The position of the `k`-th ready background task, from position `i` on
/// (meaningful while `k` is below the ready count).
pub open spec fn kth_ready_bg_from(tasks: Seq<TaskRec>, now: u64, i: int, k: nat) -> int
    decreases tasks.len() - i,
{
    if i < 0 || i >= tasks.len() {
        tasks.len() as int
    } else if tasks[i].lane is Background && is_ready(tasks[i], now) {
        if k == 0 {
            i
        } else {
            kth_ready_bg_from(tasks, now, i + 1, (k - 1) as nat)
        }
    } else {
        kth_ready_bg_from(tasks, now, i + 1, k)
    }
}

/// The scheduling decision: the oldest ready foreground task, else a
/// seeded choice among the ready background tasks, else nothing.
pub open spec fn pick(d: DispModel) -> Option<int> {
    match first_ready_fg_from(d.tasks, d.now, 0) {
        Some(i) => Some(i),
        None => {
            let c = ready_bg_count_from(d.tasks, d.now, 0);
            if c > 0 {
                Some(kth_ready_bg_from(d.tasks, d.now, 0, (d.rng as nat) % c))
            } else {
                None
            }
        },
    }
}

/// What a unit of work completes with.
pub open spec fn work_result(w: Work) -> u64 {
    match w {
        Work::Value { value } => value,
        Work::Sum { a, b } => vstd::wrapping::u64_specs::wrapping_add(a, b),
        Work::SumThenWrite { a, b, target } => vstd::wrapping::u64_specs::wrapping_add(a, b),
        Work::WriteEntity { target, value } => value,
    }
}

/// The entity write a completed unit of work asks for, if any.
pub open spec fn work_effect_target(w: Work) -> Option<usize> {
    match w {
        Work::WriteEntity { target, value } => Some(target),
        _ => None,
    }
}

/// The continuation a completed unit of work schedules, if any: ready at
/// once, on the foreground lane.
pub open spec fn work_spawns(w: Work, now: u64) -> Option<TaskRec> {
    match w {
        Work::SumThenWrite { a, b, target } => Some(
            TaskRec {
                lane: Lane::Foreground,
                ready_at: now,
                work: Work::WriteEntity {
                    target,
                    value: vstd::wrapping::u64_specs::wrapping_add(a, b),
                },
                state: TaskState::Pending,
            },
        ),
        _ => None,
    }
}

/// Completing task `i`: it is marked done, its continuation (if any) is
/// queued, its completion is logged, and the seeded generator advances
/// exactly when the choice was a background one.
pub open spec fn complete_task(d: DispModel, i: int) -> DispModel
    recommends
        0 <= i < d.tasks.len(),
{
    let t = d.tasks[i];
    let r = work_result(t.work);
    let tasks1 = d.tasks.update(i, TaskRec { state: TaskState::Done { result: r }, ..t });
    let tasks2 = match work_spawns(t.work, d.now) {
        Some(nt) => tasks1.push(nt),
        None => tasks1,
    };
    DispModel {
        rng: if t.lane is Background {
            next_rng(d.rng)
        } else {
            d.rng
        },
        tasks: tasks2,
        completions: d.completions.push(
            Completion {
                task: i as usize,
                result: r,
                effect_target: work_effect_target(t.work),
                effect_value: r,
            },
        ),
        ..d
    }
}

/// The weight a task contributes to the termination measure: ready tasks
/// that will spawn a continuation count twice, other ready tasks once.
pub open spec fn tweight(t: TaskRec, now: u64) -> nat {
    if is_ready(t, now) {
        match t.work {
            Work::SumThenWrite { a, b, target } => 2,
            _ => 1,
        }
    } else {
        0
    }
}

/// The termination measure: the weights of all tasks from `i` on.
pub open spec fn wsum_from(tasks: Seq<TaskRec>, now: u64, i: int) -> nat
    decreases tasks.len() - i,
{
    if i < 0 || i >= tasks.len() {
        0
    } else {
        tweight(tasks[i], now) + wsum_from(tasks, now, i + 1)
    }
}

pub open spec fn disp_measure(d: DispModel) -> nat {
    wsum_from(d.tasks, d.now, 0)
}

/// The run loop with explicit fuel; `disp_run` supplies enough fuel for
/// the loop to drain every ready task.
pub open spec fn disp_run_fuel(d: DispModel, fuel: nat) -> DispModel
    decreases fuel,
{
    if fuel == 0 {
        d
    } else {
        match pick(d) {
            None => d,
            Some(i) => disp_run_fuel(complete_task(d, i), (fuel - 1) as nat),
        }
    }
}

/// Running the dispatcher until no task is ready: a pure function of the
/// dispatcher state (seed, clock, task list), which is exactly what makes
/// the test scheduler deterministic.
pub open spec fn disp_run(d: DispModel) -> DispModel {
    disp_run_fuel(d, disp_measure(d))
}

/// Spawning: one more pending task at the end of the queue, ready after
/// the given simulated delay.
pub open spec fn spec_spawn(d: DispModel, lane: Lane, delay: u64, work: Work) -> DispModel {
    DispModel {
        tasks: d.tasks.push(
            TaskRec { lane, ready_at: sat_add(d.now, delay), work, state: TaskState::Pending },
        ),
        ..d
    }
}

/// Cancelling: a pending task is abandoned; anything else is left alone.
pub open spec fn spec_cancel_task(d: DispModel, id: usize) -> DispModel {
    if id < d.tasks.len() && d.tasks[id as int].state is Pending {
        DispModel {
            tasks: d.tasks.update(
                id as int,
                TaskRec { state: TaskState::Cancelled, ..d.tasks[id as int] },
            ),
            ..d
        }
    } else {
        d
    }
}

// ---------------------------------------------------------------------------
// Lemmas about the interpreter
// ---------------------------------------------------------------------------

/// A ready foreground position found by the scan really is one.
pub proof fn lemma_first_fg(tasks: Seq<TaskRec>, now: u64, i: int)
    ensures
        first_ready_fg_from(tasks, now, i) matches Some(j) ==> i <= j < tasks.len() && is_ready(
            tasks[j],
            now,
        ),
    decreases tasks.len() - i,
{
    if 0 <= i < tasks.len() {
        lemma_first_fg(tasks, now, i + 1);
    }
}

/// Below the ready count, the `k`-th ready background position is a real,
/// ready position.
pub proof fn lemma_kth_bg(tasks: Seq<TaskRec>, now: u64, i: int, k: nat)
    requires
        k < ready_bg_count_from(tasks, now, i),
    ensures
        i <= kth_ready_bg_from(tasks, now, i, k) < tasks.len(),
        is_ready(tasks[kth_ready_bg_from(tasks, now, i, k)], now),
    decreases tasks.len() - i,
{
    if 0 <= i < tasks.len() {
        if tasks[i].lane is Background && is_ready(tasks[i], now) {
            if k > 0 {
                lemma_kth_bg(tasks, now, i + 1, (k - 1) as nat);
            }
        } else {
            lemma_kth_bg(tasks, now, i + 1, k);
        }
    }
}

/// The ready count never exceeds the number of positions left.
pub proof fn lemma_bg_count_bound(tasks: Seq<TaskRec>, now: u64, i: int)
    requires
        0 <= i <= tasks.len(),
    ensures
        ready_bg_count_from(tasks, now, i) <= tasks.len() - i,
    decreases tasks.len() - i,
{
    if i < tasks.len() {
        lemma_bg_count_bound(tasks, now, i + 1);
    }
}

/// The scheduling decision lands on a ready task.
pub proof fn lemma_pick_ready(d: DispModel)
    ensures
        pick(d) matches Some(i) ==> 0 <= i < d.tasks.len() && is_ready(d.tasks[i], d.now),
{
    lemma_first_fg(d.tasks, d.now, 0);
    let c = ready_bg_count_from(d.tasks, d.now, 0);
    if first_ready_fg_from(d.tasks, d.now, 0) is None && c > 0 {
        lemma_kth_bg(d.tasks, d.now, 0, (d.rng as nat) % c);
    }
}

/// Updating one task shifts the measure by exactly the weight change.
pub proof fn lemma_wsum_update(tasks: Seq<TaskRec>, now: u64, i: int, j: int, t: TaskRec)
    requires
        0 <= i <= j < tasks.len(),
    ensures
        wsum_from(tasks.update(j, t), now, i) + tweight(tasks[j], now) == wsum_from(tasks, now, i)
            + tweight(t, now),
    decreases tasks.len() - i,
{
    if i < j {
        lemma_wsum_update(tasks, now, i + 1, j, t);
    } else {
        assert(forall|x: int| i < x < tasks.len() ==> tasks.update(j, t)[x] == tasks[x]);
        lemma_wsum_same(tasks.update(j, t), tasks, now, i + 1);
    }
}

/// Two queues that agree from `i` on have the same measure from `i` on.
pub proof fn lemma_wsum_same(a: Seq<TaskRec>, b: Seq<TaskRec>, now: u64, i: int)
    requires
        0 <= i,
        a.len() == b.len(),
        forall|x: int| i <= x < a.len() ==> a[x] == b[x],
    ensures
        wsum_from(a, now, i) == wsum_from(b, now, i),
    decreases a.len() - i,
{
    if i < a.len() {
        lemma_wsum_same(a, b, now, i + 1);
    }
}

/// Appending a task adds exactly its weight to the measure.
pub proof fn lemma_wsum_push(tasks: Seq<TaskRec>, now: u64, i: int, t: TaskRec)
    requires
        0 <= i <= tasks.len(),
    ensures
        wsum_from(tasks.push(t), now, i) == wsum_from(tasks, now, i) + tweight(t, now),
    decreases tasks.len() - i,
{
    if i < tasks.len() {
        assert(tasks.push(t)[i] == tasks[i]);
        lemma_wsum_push(tasks, now, i + 1, t);
    } else {
        assert(tasks.push(t)[i] == t);
        assert(wsum_from(tasks.push(t), now, i) == tweight(t, now) + wsum_from(
            tasks.push(t),
            now,
            i + 1,
        ));
    }
}

/// Every ready task's weight is part of the measure.
pub proof fn lemma_wsum_lower(tasks: Seq<TaskRec>, now: u64, i: int, j: int)
    requires
        0 <= i <= j < tasks.len(),
    ensures
        wsum_from(tasks, now, i) >= tweight(tasks[j], now),
    decreases tasks.len() - i,
{
    if i < j {
        lemma_wsum_lower(tasks, now, i + 1, j);
    }
}

/// Completing the picked task strictly shrinks the measure: the run loop
/// terminates.
pub proof fn lemma_step_decreases(d: DispModel)
    requires
        pick(d) is Some,
    ensures
        disp_measure(complete_task(d, pick(d).unwrap())) < disp_measure(d),
{
    lemma_pick_ready(d);
    let i = pick(d).unwrap();
    let t = d.tasks[i];
    let done = TaskRec { state: TaskState::Done { result: work_result(t.work) }, ..t };
    let tasks1 = d.tasks.update(i, done);
    lemma_wsum_update(d.tasks, d.now, 0, i, done);
    lemma_wsum_lower(d.tasks, d.now, 0, i);
    match work_spawns(t.work, d.now) {
        Some(nt) => {
            lemma_wsum_push(tasks1, d.now, 0, nt);
        },
        None => {},
    }
}

/// One unfolding of the full run: nothing ready means the run is done;
/// otherwise the run equals the run of the stepped state.
pub proof fn lemma_run_unfold(d: DispModel)
    ensures
        pick(d) is None ==> disp_run(d) == d,
        pick(d) matches Some(i) ==> disp_run(d) == disp_run(complete_task(d, i)),
{
    match pick(d) {
        None => {},
        Some(i) => {
            lemma_pick_ready(d);
            lemma_wsum_lower(d.tasks, d.now, 0, i);
            lemma_step_decreases(d);
            let m = disp_measure(d);
            let d2 = complete_task(d, i);
            assert(m >= 1);
            assert(disp_run(d) == disp_run_fuel(d2, (m - 1) as nat));
            lemma_fuel_enough(d2, (m - 1) as nat);
        },
    }
}

/// Any fuel at or above the measure drains the queue the same way.
pub proof fn lemma_fuel_enough(d: DispModel, fuel: nat)
    requires
        fuel >= disp_measure(d),
    ensures
        disp_run_fuel(d, fuel) == disp_run(d),
    decreases fuel,
{
    match pick(d) {
        None => {},
        Some(i) => {
            lemma_pick_ready(d);
            lemma_wsum_lower(d.tasks, d.now, 0, i);
            lemma_step_decreases(d);
            let d2 = complete_task(d, i);
            let m = disp_measure(d);
            assert(m >= 1);
            lemma_fuel_enough(d2, (fuel - 1) as nat);
            lemma_fuel_enough(d2, (m - 1) as nat);
        },
    }
}

// ---------------------------------------------------------------------------
// Executable dispatcher
// ---------------------------------------------------------------------------

/// The deterministic stand-in for real threads and timers: a seeded
/// virtual run loop that both executors dispatch onto.
pub struct TestDispatcher {
    rng: u64,
    now: u64,
    tasks: Vec<TaskRec>,
    completions: Vec<Completion>,
}

impl View for TestDispatcher {
    type V = DispModel;

    closed spec fn view(&self) -> DispModel {
        DispModel {
            rng: self.rng,
            now: self.now,
            tasks: self.tasks@,
            completions: self.completions@,
        }
    }
}

impl TestDispatcher {
    /// A fresh dispatcher. The seed fixes every later background choice.
    pub fn new(seed: u64) -> (r: TestDispatcher)
        ensures
            r@ == (DispModel { rng: seed, now: 0, tasks: Seq::empty(), completions: Seq::empty() }),
    {
        let r = TestDispatcher { rng: seed, now: 0, tasks: Vec::new(), completions: Vec::new() };
        proof {
            assert(r@ =~= DispModel {
                rng: seed,
                now: 0,
                tasks: Seq::empty(),
                completions: Seq::empty(),
            });
        }
        r
    }

    /// The virtual clock.
    pub fn now(&self) -> (r: u64)
        ensures
            r == self@.now,
    {
        self.now
    }

    /// The completion log so far, in completion order.
    pub fn completions(&self) -> (r: &Vec<Completion>)
        ensures
            r@ == self@.completions,
    {
        &self.completions
    }

    /// Schedules a unit of work on the given lane, ready after the given
    /// simulated delay, and returns its task handle.
    pub fn spawn(&mut self, lane: Lane, delay: u64, work: Work) -> (t: Task)
        ensures
            final(self)@ == spec_spawn(old(self)@, lane, delay, work),
            t.id == old(self)@.tasks.len(),
    {
        let id = self.tasks.len();
        let ready_at = self.now.saturating_add(delay);
        self.tasks.push(TaskRec { lane, ready_at, work, state: TaskState::Pending });
        proof {
            assert(self@ =~= spec_spawn(old(self)@, lane, delay, work));
        }
        Task { id }
    }

    /// Moves the virtual clock forward; delayed tasks with a ready time at
    /// or below the new clock become runnable.
    pub fn advance_clock(&mut self, d: u64)
        ensures
            final(self)@ == (DispModel { now: sat_add(old(self)@.now, d), ..old(self)@ }),
    {
        self.now = self.now.saturating_add(d);
        proof {
            assert(self@ =~= DispModel { now: sat_add(old(self)@.now, d), ..old(self)@ });
        }
    }

    /// Requests cancellation: a task that has not run yet never will;
    /// a finished task keeps its result.
    pub fn cancel_task(&mut self, t: &Task)
        ensures
            final(self)@ == spec_cancel_task(old(self)@, t.id),
    {
        if t.id < self.tasks.len() {
            let pending = match self.tasks[t.id].state {
                TaskState::Pending => true,
                _ => false,
            };
            if pending {
                let cur = self.tasks[t.id];
                let slot = &mut self.tasks[t.id];
                *slot = TaskRec { state: TaskState::Cancelled, ..cur };
                proof {
                    assert(self@ =~= spec_cancel_task(old(self)@, t.id));
                }
            }
        }
        proof {
            assert(self@ =~= spec_cancel_task(old(self)@, t.id));
        }
    }

    /// The task's result, once it has completed; `None` while it is
    /// pending and forever after a cancellation.
    pub fn task_result(&self, t: &Task) -> (r: Option<u64>)
        ensures
            r == (if t.id < self@.tasks.len() && self@.tasks[t.id as int].state matches
                TaskState::Done { result } {
                Some(self@.tasks[t.id as int].state->Done_result)
            } else {
                Option::<u64>::None
            }),
    {
        if t.id < self.tasks.len() {
            match self.tasks[t.id].state {
                TaskState::Done { result } => Some(result),
                _ => None,
            }
        } else {
            None
        }
    }

    fn find_ready_fg_from(&self, i: usize) -> (r: Option<usize>)
        requires
            i <= self@.tasks.len(),
        ensures
            match r {
                Some(j) => first_ready_fg_from(self@.tasks, self@.now, i as int) == Some(j as int)
                    && j < self@.tasks.len(),
                None => first_ready_fg_from(self@.tasks, self@.now, i as int) is None,
            },
        decreases self@.tasks.len() - i,
    {
        if i >= self.tasks.len() {
            None
        } else {
            let t = self.tasks[i];
            let fg = match t.lane {
                Lane::Foreground => true,
                Lane::Background => false,
            };
            let pending = match t.state {
                TaskState::Pending => true,
                _ => false,
            };
            if fg && pending && t.ready_at <= self.now {
                Some(i)
            } else {
                self.find_ready_fg_from(i + 1)
            }
        }
    }

    fn count_ready_bg_from(&self, i: usize) -> (r: usize)
        requires
            i <= self@.tasks.len(),
        ensures
            r as nat == ready_bg_count_from(self@.tasks, self@.now, i as int),
        decreases self@.tasks.len() - i,
    {
        if i >= self.tasks.len() {
            0
        } else {
            proof {
                lemma_bg_count_bound(self@.tasks, self@.now, i as int + 1);
            }
            let rest = self.count_ready_bg_from(i + 1);
            let t = self.tasks[i];
            let bg = match t.lane {
                Lane::Background => true,
                Lane::Foreground => false,
            };
            let pending = match t.state {
                TaskState::Pending => true,
                _ => false,
            };
            if bg && pending && t.ready_at <= self.now {
                rest + 1
            } else {
                rest
            }
        }
    }

    fn kth_ready_bg(&self, i: usize, k: usize) -> (r: usize)
        requires
            i <= self@.tasks.len(),
            (k as nat) < ready_bg_count_from(self@.tasks, self@.now, i as int),
        ensures
            r as int == kth_ready_bg_from(self@.tasks, self@.now, i as int, k as nat),
            r < self@.tasks.len(),
        decreases self@.tasks.len() - i,
    {
        proof {
            lemma_kth_bg(self@.tasks, self@.now, i as int, k as nat);
            assert(i < self@.tasks.len()) by {
                assert(ready_bg_count_from(self@.tasks, self@.now, i as int) > 0);
            }
        }
        let n = self.tasks.len();
        assert(i < n);
        let t = self.tasks[i];
        let bg = match t.lane {
            Lane::Background => true,
            Lane::Foreground => false,
        };
        let pending = match t.state {
            TaskState::Pending => true,
            _ => false,
        };
        if bg && pending && t.ready_at <= self.now {
            if k == 0 {
                i
            } else {
                self.kth_ready_bg(i + 1, k - 1)
            }
        } else {
            self.kth_ready_bg(i + 1, k)
        }
    }

    /// Runs exactly one scheduling step: picks the task the seeded rule
    /// selects, completes it, queues its continuation, and reports the
    /// completion; reports `None` when nothing is ready.
    pub fn step(&mut self) -> (r: Option<Completion>)
        ensures
            final(self)@ == (match pick(old(self)@) {
                None => old(self)@,
                Some(i) => complete_task(old(self)@, i),
            }),
            r is Some <==> pick(old(self)@) is Some,
            r matches Some(c) ==> final(self)@.completions == old(self)@.completions.push(c),
    {
        proof {
            lemma_pick_ready(self@);
        }
        let picked: Option<usize> = match self.find_ready_fg_from(0) {
            Some(i) => Some(i),
            None => {
                let c = self.count_ready_bg_from(0);
                if c > 0 {
                    let k = (self.rng % (c as u64)) as usize;
                    proof {
                        assert((k as nat) == (self@.rng as nat) % (
                        ready_bg_count_from(self@.tasks, self@.now, 0)));
                    }
                    Some(self.kth_ready_bg(0, k))
                } else {
                    None
                }
            },
        };
        match picked {
            None => {
                proof {
                    assert(pick(self@) is None);
                }
                None
            },
            Some(i) => {
                proof {
                    assert(pick(self@) == Some(i as int));
                }
                let t = self.tasks[i];
                let result = match t.work {
                    Work::Value { value } => value,
                    Work::Sum { a, b } => a.wrapping_add(b),
                    Work::SumThenWrite { a, b, target } => a.wrapping_add(b),
                    Work::WriteEntity { target, value } => value,
                };
                let effect_target = match t.work {
                    Work::WriteEntity { target, value } => Some(target),
                    _ => None,
                };
                let slot = &mut self.tasks[i];
                *slot = TaskRec { state: TaskState::Done { result }, ..t };
                match t.work {
                    Work::SumThenWrite { a, b, target } => {
                        self.tasks.push(
                            TaskRec {
                                lane: Lane::Foreground,
                                ready_at: self.now,
                                work: Work::WriteEntity { target, value: result },
                                state: TaskState::Pending,
                            },
                        );
                    },
                    _ => {},
                }
                let completion = Completion { task: i, result, effect_target, effect_value: result };
                self.completions.push(completion);
                let is_bg = match t.lane {
                    Lane::Background => true,
                    Lane::Foreground => false,
                };
                if is_bg {
                    self.rng = self.rng.wrapping_mul(6364136223846793005).wrapping_add(
                        1442695040888963407,
                    );
                }
                proof {
                    assert(self@ =~= complete_task(old(self)@, i as int));
                }
                Some(completion)
            },
        }
    }
}

} // verus!
