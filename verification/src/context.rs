//! The test application context: the single owner of the entity store and
//! of the deterministic dispatcher, with the two executor façades, plus
//! the cloneable async context that spawned work uses to reach the
//! runtime without assuming it is still alive.

use vstd::prelude::*;

use crate::executor::{
    disp_run, disp_measure, lemma_run_unfold, lemma_step_decreases, pick, spec_spawn,
    BackgroundExecutor, Completion, ForegroundExecutor, Lane, Task, TestDispatcher,
    Work,
};
use crate::store::{
    ent, live, spec_build, spec_has_global, spec_global_value, spec_open_window, spec_quit,
    spec_refresh_from, spec_register, spec_remove_global, spec_cancel, spec_set_global,
    spec_update, spec_update_global, spec_update_window, AnyWindowHandle, AppContext, AppModel,
    Delivery, EntityModel, GlobalOp, Model, StoreError, SubKind, Subscription, UpdateStep,
};

verus! {

/// One scoped operation on the application itself, as data: what an
/// update callback with whole-app access performs.
#[derive(Clone, Copy, PartialEq, Eq, Structural, Debug)]
pub enum AppOp {
    /// Write a global slot (no notification fires).
    SetGlobal { key: u64, value: u64 },
    /// Drop a global slot.
    RemoveGlobal { key: u64 },
    /// Open a window with the given root value.
    OpenWindow { initial: u64 },
    /// Mark every window as needing a redraw.
    Refresh,
}

/// What a scoped application operation came back with.
#[derive(Clone, Copy, PartialEq, Eq, Structural, Debug)]
pub enum AppResponse {
    Done,
    OpenedWindow { handle: AnyWindowHandle },
}

/// The app-level transition behind [`AppOp`].
pub open spec fn spec_app_op(m: AppModel, op: AppOp) -> AppModel {
    match op {
        AppOp::SetGlobal { key, value } => spec_set_global(m, key, value),
        AppOp::RemoveGlobal { key } => spec_remove_global(m, key),
        AppOp::OpenWindow { initial } => spec_open_window(m, initial),
        AppOp::Refresh => spec_refresh_from(m, 0),
    }
}

/// The response an [`AppOp`] owes: the fresh window handle for an open,
/// plain completion otherwise.
pub open spec fn spec_app_response(m: AppModel, op: AppOp) -> AppResponse {
    match op {
        AppOp::OpenWindow { initial } => AppResponse::OpenedWindow {
            handle: AnyWindowHandle { id: m.windows.len() as usize },
        },
        _ => AppResponse::Done,
    }
}

fn run_app_op(app: &mut AppContext, op: AppOp) -> (r: AppResponse)
    ensures
        final(app)@ == spec_app_op(old(app)@, op),
        r == spec_app_response(old(app)@, op),
{
    match op {
        AppOp::SetGlobal { key, value } => {
            app.set_global(key, value);
            AppResponse::Done
        },
        AppOp::RemoveGlobal { key } => {
            app.remove_global(key);
            AppResponse::Done
        },
        AppOp::OpenWindow { initial } => {
            let h = app.open_window(initial);
            AppResponse::OpenedWindow { handle: h }
        },
        AppOp::Refresh => {
            app.refresh();
            AppResponse::Done
        },
    }
}

/// The store-side effect of one scheduler completion: a completed
/// foreground continuation writes its value into its target entity
/// through a full update (so observers are notified); completions
/// without an effect leave the store alone.
pub open spec fn apply_completion(m: AppModel, c: Completion) -> AppModel {
    match c.effect_target {
        Some(t) => spec_update(m, t, seq![UpdateStep::Assign { value: c.effect_value }]).0,
        None => m,
    }
}

/// Folding the effects of the completions from position `i` on, in
/// completion order, over the store.
pub open spec fn apply_completions_from(m: AppModel, comps: Seq<Completion>, i: int) -> AppModel
    decreases comps.len() - i,
{
    if i < 0 || i >= comps.len() {
        m
    } else {
        apply_completions_from(apply_completion(m, comps[i]), comps, i + 1)
    }
}

/// Appending one completion to the log extends the fold by exactly its
/// effect.
pub proof fn lemma_apply_comps_push(m: AppModel, comps: Seq<Completion>, i: int, c: Completion)
    requires
        0 <= i <= comps.len(),
    ensures
        apply_completions_from(m, comps.push(c), i) == apply_completion(
            apply_completions_from(m, comps, i),
            c,
        ),
    decreases comps.len() - i,
{
    if i < comps.len() {
        assert(comps.push(c)[i] == comps[i]);
        lemma_apply_comps_push(apply_completion(m, comps[i]), comps, i + 1, c);
    } else {
        assert(comps.push(c)[i] == c);
        assert(apply_completions_from(apply_completion(m, c), comps.push(c), i + 1)
            == apply_completion(m, c));
        assert(apply_completions_from(m, comps, i) == m);
    }
}

/// The owning container a test drives: the entity store, the seeded
/// dispatcher, and the two executor façades over it.
pub struct TestAppContext {
    pub app: AppContext,
    pub dispatcher: TestDispatcher,
    pub background_executor: BackgroundExecutor,
    pub foreground_executor: ForegroundExecutor,
}

/// A cloneable, possibly-stale way into the runtime for asynchronous
/// work: it holds only the executor façades, and every operation first
/// re-checks that the application is still alive, failing with
/// `AppReleased` and no side effect once it has been torn down.
#[derive(Clone, Copy, PartialEq, Eq, Structural, Debug)]
pub struct AsyncAppContext {
    pub background_executor: BackgroundExecutor,
    pub foreground_executor: ForegroundExecutor,
}

impl TestAppContext {
    /// A fresh runtime over the given dispatcher: an empty, alive store.
    pub fn new(dispatcher: TestDispatcher) -> (r: TestAppContext)
        ensures
            r.app@ == (AppModel {
                alive: true,
                entities: Seq::empty(),
                subs: Seq::empty(),
                globals: Seq::empty(),
                windows: Seq::empty(),
                delivered: Seq::empty(),
            }),
            r.dispatcher@ == dispatcher@,
    {
        TestAppContext {
            app: AppContext::new(),
            dispatcher,
            background_executor: BackgroundExecutor {},
            foreground_executor: ForegroundExecutor {},
        }
    }

    /// Tears the application down; see [`AppContext::quit`].
    pub fn quit(&mut self)
        ensures
            final(self).app@ == spec_quit(old(self).app@),
            final(self).dispatcher@ == old(self).dispatcher@,
    {
        self.app.quit();
    }

    /// Marks every window as needing a redraw; always succeeds.
    pub fn refresh(&mut self) -> (r: Result<(), StoreError>)
        ensures
            final(self).app@ == spec_refresh_from(old(self).app@, 0),
            final(self).dispatcher@ == old(self).dispatcher@,
            r is Ok,
    {
        self.app.refresh();
        Ok(())
    }

    /// The background executor façade.
    pub fn executor(&self) -> (r: &BackgroundExecutor)
        ensures
            r == self.background_executor,
    {
        &self.background_executor
    }

    /// Runs one scoped operation with whole-app access and flushes its
    /// effects before returning.
    pub fn update(&mut self, op: AppOp) -> (r: AppResponse)
        ensures
            final(self).app@ == spec_app_op(old(self).app@, op),
            r == spec_app_response(old(self).app@, op),
            final(self).dispatcher@ == old(self).dispatcher@,
    {
        run_app_op(&mut self.app, op)
    }

    /// Allocates a new entity and returns the first strong handle to it.
    pub fn build_model(&mut self, initial: u64) -> (h: Model)
        requires
            old(self).app@.alive,
        ensures
            final(self).app@ == spec_build(old(self).app@, initial),
            final(self).dispatcher@ == old(self).dispatcher@,
            h.id == old(self).app@.entities.len(),
            live(final(self).app@, h.id),
            ent(final(self).app@, h.id) == (EntityModel {
                value: initial,
                strong: 1,
                observers: seq![],
                listeners: seq![],
            }),
    {
        self.app.build_model(initial)
    }

    /// Runs an update closure (its steps) with exclusive access to the
    /// entity; see [`AppContext::update_model`] for the full contract.
    pub fn update_model(&mut self, handle: &Model, steps: &Vec<UpdateStep>) -> (r: Result<
        u64,
        StoreError,
    >)
        ensures
            final(self).app@ == spec_update(old(self).app@, handle.id, steps@).0,
            r == spec_update(old(self).app@, handle.id, steps@).1,
            final(self).dispatcher@ == old(self).dispatcher@,
    {
        self.app.update_model(handle, steps)
    }

    /// Reads a window's root value; the caller promises the window is
    /// known and the application alive (the panicking accessor).
    pub fn read_window(&self, handle: AnyWindowHandle) -> (r: u64)
        requires
            self.app@.alive,
            handle.id < self.app@.windows.len(),
        ensures
            r == self.app@.windows[handle.id as int].value,
    {
        match self.app.read_window(handle) {
            Ok(v) => v,
            Err(_) => 0,
        }
    }

    /// Updates a window's root value; the caller promises the window is
    /// known and the application alive (the panicking accessor).
    pub fn update_window(&mut self, handle: AnyWindowHandle, value: u64) -> (r: u64)
        requires
            old(self).app@.alive,
            handle.id < old(self).app@.windows.len(),
        ensures
            final(self).app@ == spec_update_window(old(self).app@, handle.id, value),
            final(self).dispatcher@ == old(self).dispatcher@,
            r == value,
    {
        match self.app.update_window(handle, value) {
            Ok(v) => v,
            Err(_) => 0,
        }
    }

    /// Spawns a unit of work on the foreground lane, ready at once.
    pub fn spawn(&mut self, work: Work) -> (t: Task)
        ensures
            final(self).dispatcher@ == spec_spawn(
                old(self).dispatcher@,
                Lane::Foreground,
                0,
                work,
            ),
            final(self).app@ == old(self).app@,
            t.id == old(self).dispatcher@.tasks.len(),
    {
        self.dispatcher.spawn(Lane::Foreground, 0, work)
    }

    /// Spawns a unit of work on the background lane after a simulated
    /// delay.
    pub fn spawn_background(&mut self, delay: u64, work: Work) -> (t: Task)
        ensures
            final(self).dispatcher@ == spec_spawn(
                old(self).dispatcher@,
                Lane::Background,
                delay,
                work,
            ),
            final(self).app@ == old(self).app@,
            t.id == old(self).dispatcher@.tasks.len(),
    {
        self.dispatcher.spawn(Lane::Background, delay, work)
    }

    /// Whether a live instance fills the global slot for this type key.
    pub fn has_global(&self, key: u64) -> (r: bool)
        ensures
            r == spec_has_global(self.app@, key),
    {
        self.app.has_global(key)
    }

    /// Reads a global slot the caller promises is set (the panicking
    /// accessor).
    pub fn read_global(&self, key: u64) -> (r: u64)
        requires
            spec_has_global(self.app@, key),
        ensures
            r == spec_global_value(self.app@, key),
    {
        self.app.global(key)
    }

    /// Reads a global slot, soft: absence comes back as `None`.
    pub fn try_read_global(&self, key: u64) -> (r: Option<u64>)
        ensures
            r is Some <==> spec_has_global(self.app@, key),
            r is Some ==> r.unwrap() == spec_global_value(self.app@, key),
    {
        self.app.try_global(key)
    }

    /// Mutates a global slot in place, default-constructing it when
    /// absent; no notification fires.
    pub fn update_global(&mut self, key: u64, op: GlobalOp) -> (r: u64)
        ensures
            final(self).app@ == spec_update_global(old(self).app@, key, op).0,
            r == spec_update_global(old(self).app@, key, op).1,
            final(self).dispatcher@ == old(self).dispatcher@,
    {
        self.app.update_global(key, op)
    }

    /// A cloneable async context over this runtime: clones of both
    /// executors, and a weak way back that re-checks liveness on use.
    pub fn to_async(&self) -> (r: AsyncAppContext)
        ensures
            r.background_executor == self.background_executor,
            r.foreground_executor == self.foreground_executor,
    {
        AsyncAppContext {
            background_executor: self.background_executor,
            foreground_executor: self.foreground_executor,
        }
    }

    /// Registers a changed-listener on the entity.
    pub fn observe(&mut self, handle: &Model) -> (s: Subscription)
        requires
            live(old(self).app@, handle.id),
        ensures
            final(self).app@ == spec_register(old(self).app@, handle.id, SubKind::Observe),
            final(self).dispatcher@ == old(self).dispatcher@,
            s.id == old(self).app@.subs.len(),
    {
        self.app.observe(handle)
    }

    /// Registers an event-listener on the entity.
    pub fn subscribe(&mut self, handle: &Model) -> (s: Subscription)
        requires
            live(old(self).app@, handle.id),
        ensures
            final(self).app@ == spec_register(old(self).app@, handle.id, SubKind::Listen),
            final(self).dispatcher@ == old(self).dispatcher@,
            s.id == old(self).app@.subs.len(),
    {
        self.app.subscribe(handle)
    }

    /// Drops a subscription guard: no further delivery reaches it.
    pub fn cancel_subscription(&mut self, sub: Subscription) -> (sid: usize)
        ensures
            final(self).app@ == spec_cancel(old(self).app@, sub.id),
            final(self).dispatcher@ == old(self).dispatcher@,
            sid == sub.id,
    {
        self.app.cancel(sub)
    }

    /// The deliveries a subscription has received so far, oldest first.
    pub fn deliveries(&self, sub: &Subscription) -> (r: &Vec<Delivery>)
        requires
            sub.id < self.app@.subs.len(),
        ensures
            r@ == self.app@.subs[sub.id as int].log,
    {
        self.app.deliveries(sub)
    }

    /// Drives the virtual run loop until no task is ready, applying each
    /// completed foreground continuation's entity write in completion
    /// order. The dispatcher ends exactly at its spec-level run, and the
    /// store at that run's effects: both are pure functions of the state
    /// before the call, so a fixed seed replays identically.
    pub fn run_until_idle(&mut self)
        ensures
            final(self).dispatcher@ == disp_run(old(self).dispatcher@),
            final(self).app@ == apply_completions_from(
                old(self).app@,
                disp_run(old(self).dispatcher@).completions,
                old(self).dispatcher@.completions.len() as int,
            ),
    {
        let ghost d0 = self.dispatcher@;
        let ghost a0 = self.app@;
        let ghost n0 = self.dispatcher@.completions.len() as int;
        loop
            invariant
                disp_run(self.dispatcher@) == disp_run(d0),
                self.app@ == apply_completions_from(a0, self.dispatcher@.completions, n0),
                0 <= n0 <= self.dispatcher@.completions.len(),
            ensures
                pick(self.dispatcher@) is None,
                disp_run(self.dispatcher@) == disp_run(d0),
                self.app@ == apply_completions_from(a0, self.dispatcher@.completions, n0),
            decreases disp_measure(self.dispatcher@),
        {
            proof {
                lemma_run_unfold(self.dispatcher@);
                if pick(self.dispatcher@) is Some {
                    lemma_step_decreases(self.dispatcher@);
                }
            }
            let ghost comps_before = self.dispatcher@.completions;
            let stepped = self.dispatcher.step();
            match stepped {
                None => {
                    break ;
                },
                Some(c) => {
                    proof {
                        lemma_apply_comps_push(a0, comps_before, n0, c);
                    }
                    match c.effect_target {
                        Some(t) => {
                            let steps: Vec<UpdateStep> = vec![
                                UpdateStep::Assign { value: c.effect_value },
                            ];
                            proof {
                                assert(steps@ =~= seq![
                                    UpdateStep::Assign { value: c.effect_value },
                                ]);
                            }
                            let target = Model { id: t };
                            let _ = self.app.update_model(&target, &steps);
                        },
                        None => {},
                    }
                },
            }
        }
        proof {
            lemma_run_unfold(self.dispatcher@);
        }
    }
}

impl AsyncAppContext {
    /// A best-effort `update_model` from asynchronous work: resolves the
    /// application first and fails with `AppReleased`, with no side
    /// effect, once it has been torn down.
    pub fn update_model(&self, app: &mut AppContext, handle: &Model, steps: &Vec<UpdateStep>) -> (r:
        Result<u64, StoreError>)
        ensures
            !old(app)@.alive ==> final(app)@ == old(app)@ && r == Result::<u64, StoreError>::Err(
                StoreError::AppReleased,
            ),
            old(app)@.alive ==> final(app)@ == spec_update(old(app)@, handle.id, steps@).0 && r
                == spec_update(old(app)@, handle.id, steps@).1,
    {
        if !app.is_alive() {
            Err(StoreError::AppReleased)
        } else {
            app.update_model(handle, steps)
        }
    }

    /// A best-effort scoped application operation from asynchronous work.
    pub fn update(&self, app: &mut AppContext, op: AppOp) -> (r: Result<AppResponse, StoreError>)
        ensures
            !old(app)@.alive ==> final(app)@ == old(app)@ && r == Result::<
                AppResponse,
                StoreError,
            >::Err(StoreError::AppReleased),
            old(app)@.alive ==> final(app)@ == spec_app_op(old(app)@, op) && r == Result::<
                AppResponse,
                StoreError,
            >::Ok(spec_app_response(old(app)@, op)),
    {
        if !app.is_alive() {
            Err(StoreError::AppReleased)
        } else {
            Ok(run_app_op(app, op))
        }
    }

    /// A best-effort window read from asynchronous work.
    pub fn read_window(&self, app: &AppContext, handle: AnyWindowHandle) -> (r: Result<
        u64,
        StoreError,
    >)
        ensures
            !app@.alive ==> r == Result::<u64, StoreError>::Err(StoreError::AppReleased),
            app@.alive && handle.id < app@.windows.len() ==> r == Result::<u64, StoreError>::Ok(
                app@.windows[handle.id as int].value,
            ),
            app@.alive && handle.id >= app@.windows.len() ==> r == Result::<u64, StoreError>::Err(
                StoreError::Stale,
            ),
    {
        if !app.is_alive() {
            Err(StoreError::AppReleased)
        } else {
            app.read_window(handle)
        }
    }

    /// A best-effort spawn from asynchronous work: scheduling succeeds
    /// only while the application is alive.
    pub fn spawn(&self, app: &AppContext, dispatcher: &mut TestDispatcher, work: Work) -> (r:
        Result<Task, StoreError>)
        ensures
            !app@.alive ==> final(dispatcher)@ == old(dispatcher)@ && r is Err,
            app@.alive ==> final(dispatcher)@ == spec_spawn(
                old(dispatcher)@,
                Lane::Foreground,
                0,
                work,
            ) && r is Ok && r.unwrap().id == old(dispatcher)@.tasks.len(),
    {
        if !app.is_alive() {
            Err(StoreError::AppReleased)
        } else {
            Ok(dispatcher.spawn(Lane::Foreground, 0, work))
        }
    }
}

} // verus!
