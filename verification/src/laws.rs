//! The runtime's laws: properties that hold of whole operation sequences,
//! stated over the ghost model's transitions and proved by induction, so
//! that they hold for every program driving the store, not just for the
//! scenarios the tests replay.

use vstd::prelude::*;

use crate::executor::{disp_run, DispModel};
use crate::store::{
    ent, first_bad_from, live, spec_apply_from, spec_cancel, spec_deliver_from, spec_deliver_one,
    spec_drop, spec_flush_events_from, spec_set_value, spec_update, spec_update_global,
    spec_upgrade_ok, AppModel, Delivery, GlobalOp, StoreError, UpdateStep,
};

verus! {

/// How often `x` occurs in `sids`, from position `i` on.
pub open spec fn count_from(sids: Seq<usize>, i: int, x: usize) -> nat
    decreases sids.len() - i,
{
    if i < 0 || i >= sids.len() {
        0
    } else {
        (if sids[i] == x {
            1nat
        } else {
            0nat
        }) + count_from(sids, i + 1, x)
    }
}

/// How often `x` occurs in `sids`.
pub open spec fn count_of(sids: Seq<usize>, x: usize) -> nat {
    count_from(sids, 0, x)
}

/// Appending an id changes its own count by one and no other.
pub proof fn lemma_count_push(s: Seq<usize>, i: int, x: usize, y: usize)
    requires
        0 <= i <= s.len(),
    ensures
        count_from(s.push(y), i, x) == count_from(s, i, x) + (if x == y {
            1nat
        } else {
            0nat
        }),
    decreases s.len() - i,
{
    if i < s.len() {
        assert(s.push(y)[i] == s[i]);
        lemma_count_push(s, i + 1, x, y);
    } else {
        assert(s.push(y)[i] == y);
        assert(count_from(s.push(y), i + 1, x) == 0);
        assert(count_from(s, i, x) == 0);
    }
}

/// An id that occurs nowhere counts zero.
pub proof fn lemma_count_absent(s: Seq<usize>, i: int, x: usize)
    requires
        0 <= i,
        forall|j: int| 0 <= j < s.len() ==> s[j] != x,
    ensures
        count_from(s, i, x) == 0,
    decreases s.len() - i,
{
    if i < s.len() {
        lemma_count_absent(s, i + 1, x);
    }
}

/// A fresh registration is counted exactly once: when every id already in
/// the entity's observer list is a real subscription id (which holds of
/// every store built through the API, since each registration appends the
/// then-current subscription count), the observer `observe` hands back is
/// armed and occurs exactly once in the list — the premise under which
/// the counting law below speaks of it.
pub proof fn lemma_fresh_registration_counts_once(m: AppModel, eid: usize)
    requires
        live(m, eid),
        m.subs.len() <= usize::MAX,
        forall|j: int|
            0 <= j < ent(m, eid).observers.len() ==> (#[trigger] ent(m, eid).observers[j])
                < m.subs.len(),
    ensures
        ({
            let m2 = crate::store::spec_register(m, eid, crate::store::SubKind::Observe);
            let sid = m.subs.len() as usize;
            &&& live(m2, eid)
            &&& sid < m2.subs.len()
            &&& m2.subs[sid as int].active
            &&& count_of(ent(m2, eid).observers, sid) == 1
        }),
{
    let sid = m.subs.len() as usize;
    let obs = ent(m, eid).observers;
    assert(forall|j: int| 0 <= j < obs.len() ==> obs[j] != sid);
    lemma_count_absent(obs, 0, sid);
    lemma_count_push(obs, 0, sid, sid);
}

/// An update closure that only mutates the borrowed value: no nested
/// context calls, no emitted events.
pub open spec fn plain_from(steps: Seq<UpdateStep>, i: int) -> bool {
    forall|k: int|
        i <= k < steps.len() ==> ((#[trigger] steps[k]) is Assign || steps[k] is Add)
}

/// Delivery touches nothing but subscription logs and the delivery
/// trace: entities, globals, windows, liveness, and every subscription's
/// identity, kind and armed state are left alone.
pub proof fn lemma_deliver_frame(m: AppModel, sids: Seq<usize>, i: int, d: Delivery)
    ensures
        spec_deliver_from(m, sids, i, d).alive == m.alive,
        spec_deliver_from(m, sids, i, d).entities == m.entities,
        spec_deliver_from(m, sids, i, d).globals == m.globals,
        spec_deliver_from(m, sids, i, d).windows == m.windows,
        spec_deliver_from(m, sids, i, d).subs.len() == m.subs.len(),
        forall|j: int|
            0 <= j < m.subs.len() ==> (#[trigger] spec_deliver_from(m, sids, i, d).subs[j]).active
                == m.subs[j].active && spec_deliver_from(m, sids, i, d).subs[j].source
                == m.subs[j].source && spec_deliver_from(m, sids, i, d).subs[j].kind
                == m.subs[j].kind,
    decreases sids.len() - i,
{
    if 0 <= i < sids.len() {
        lemma_deliver_frame(spec_deliver_one(m, sids[i], d), sids, i + 1, d);
    }
}

/// A subscription that occurs exactly once in the snapshot, and is
/// armed, receives the record exactly once.
pub proof fn lemma_deliver_log_once(m: AppModel, sids: Seq<usize>, i: int, d: Delivery, sid: usize)
    requires
        sid < m.subs.len(),
        m.subs[sid as int].active,
        count_from(sids, i, sid) == 1,
    ensures
        spec_deliver_from(m, sids, i, d).subs[sid as int].log == m.subs[sid as int].log.push(d),
    decreases sids.len() - i,
{
    let m1 = spec_deliver_one(m, sids[i], d);
    if sids[i] == sid {
        lemma_deliver_log_none(m1, sids, i + 1, d, sid);
    } else {
        lemma_deliver_log_once(m1, sids, i + 1, d, sid);
    }
}

/// A subscription that is disarmed, or absent from the snapshot,
/// receives nothing.
pub proof fn lemma_deliver_log_none(m: AppModel, sids: Seq<usize>, i: int, d: Delivery, sid: usize)
    requires
        sid < m.subs.len(),
        !m.subs[sid as int].active || count_from(sids, i, sid) == 0,
    ensures
        spec_deliver_from(m, sids, i, d).subs[sid as int].log == m.subs[sid as int].log,
    decreases sids.len() - i,
{
    if 0 <= i < sids.len() {
        lemma_deliver_log_none(spec_deliver_one(m, sids[i], d), sids, i + 1, d, sid);
    }
}

/// An update closure without nested calls never faults.
pub proof fn lemma_first_bad_plain(m: AppModel, eid: usize, steps: Seq<UpdateStep>, i: int)
    requires
        plain_from(steps, i),
    ensures
        first_bad_from(m, eid, steps, i) is None,
    decreases steps.len() - i,
{
    if 0 <= i < steps.len() {
        assert(steps[i] is Assign || steps[i] is Add);
        lemma_first_bad_plain(m, eid, steps, i + 1);
    }
}

/// Running a plain update closure changes only the updated entity's
/// value: every other entity, every subscription, the queued events, the
/// globals and the windows stay as they were.
pub proof fn lemma_apply_plain(
    m: AppModel,
    eid: usize,
    steps: Seq<UpdateStep>,
    i: int,
    pending: Seq<u64>,
)
    requires
        plain_from(steps, i),
    ensures
        ({
            let (m1, p1) = spec_apply_from(m, eid, steps, i, pending);
            &&& p1 == pending
            &&& m1.alive == m.alive
            &&& m1.subs == m.subs
            &&& m1.globals == m.globals
            &&& m1.windows == m.windows
            &&& m1.delivered == m.delivered
            &&& m1.entities.len() == m.entities.len()
            &&& forall|j: int|
                0 <= j < m.entities.len() && j != eid ==> m1.entities[j] == m.entities[j]
            &&& (eid < m.entities.len() && m.entities[eid as int] is Some
                ==> m1.entities[eid as int] is Some && m1.entities[eid as int].unwrap().strong
                == ent(m, eid).strong && m1.entities[eid as int].unwrap().observers == ent(
                m,
                eid,
            ).observers && m1.entities[eid as int].unwrap().listeners == ent(m, eid).listeners)
            &&& (!(eid < m.entities.len() && m.entities[eid as int] is Some) ==> m1.entities
                == m.entities)
        }),
    decreases steps.len() - i,
{
    if 0 <= i < steps.len() {
        assert(steps[i] is Assign || steps[i] is Add);
        match steps[i] {
            UpdateStep::Assign { value } => {
                lemma_apply_plain(spec_set_value(m, eid, value), eid, steps, i + 1, pending);
            },
            UpdateStep::Add { delta } => {
                let v = vstd::wrapping::u64_specs::wrapping_add(
                    crate::store::value_at(m, eid),
                    delta,
                );
                lemma_apply_plain(spec_set_value(m, eid, v), eid, steps, i + 1, pending);
            },
            _ => {},
        }
    }
}

/// One successful plain update, in full: it succeeds, leaves every other
/// entity and every subscription's identity alone, appends exactly one
/// `Changed` record (carrying the value it left behind) to each armed
/// observer registered exactly once, and nothing to disarmed or
/// unregistered subscriptions.
pub proof fn lemma_update_plain(m: AppModel, eid: usize, steps: Seq<UpdateStep>)
    requires
        live(m, eid),
        plain_from(steps, 0),
    ensures
        ({
            let (m3, res) = spec_update(m, eid, steps);
            &&& res is Ok
            &&& m3.alive == m.alive
            &&& m3.entities.len() == m.entities.len()
            &&& m3.entities[eid as int] is Some
            &&& live(m3, eid)
            &&& ent(m3, eid).strong == ent(m, eid).strong
            &&& ent(m3, eid).observers == ent(m, eid).observers
            &&& ent(m3, eid).listeners == ent(m, eid).listeners
            &&& ent(m3, eid).value == res.unwrap()
            &&& forall|j: int|
                0 <= j < m.entities.len() && j != eid ==> m3.entities[j] == m.entities[j]
            &&& m3.subs.len() == m.subs.len()
            &&& forall|j: int|
                0 <= j < m.subs.len() ==> (#[trigger] m3.subs[j]).active == m.subs[j].active
                    && m3.subs[j].source == m.subs[j].source && m3.subs[j].kind == m.subs[j].kind
            &&& forall|sid: usize|
                sid < m.subs.len() && (#[trigger] m.subs[sid as int]).active && count_of(
                    ent(m, eid).observers,
                    sid,
                ) == 1 ==> m3.subs[sid as int].log == m.subs[sid as int].log.push(
                    Delivery::Changed { value: res.unwrap() },
                )
            &&& forall|sid: usize|
                sid < m.subs.len() && (!(#[trigger] m.subs[sid as int]).active || count_of(
                    ent(m, eid).observers,
                    sid,
                ) == 0) ==> m3.subs[sid as int].log == m.subs[sid as int].log
            &&& m3.globals == m.globals
            &&& m3.windows == m.windows
        }),
{
    lemma_first_bad_plain(m, eid, steps, 0);
    lemma_apply_plain(m, eid, steps, 0, seq![]);
    let (m1, pending) = spec_apply_from(m, eid, steps, 0, seq![]);
    assert(pending.len() == 0);
    assert(spec_flush_events_from(m1, eid, pending, 0) == m1);
    let v = crate::store::value_at(m1, eid);
    let obs = crate::store::observers_at(m1, eid);
    assert(obs == ent(m, eid).observers);
    let d = Delivery::Changed { value: v };
    lemma_deliver_frame(m1, obs, 0, d);
    let m3 = spec_update(m, eid, steps).0;
    assert forall|sid: usize|
        sid < m.subs.len() && (#[trigger] m.subs[sid as int]).active && count_of(
            ent(m, eid).observers,
            sid,
        ) == 1 implies m3.subs[sid as int].log == m.subs[sid as int].log.push(d) by {
        lemma_deliver_log_once(m1, obs, 0, d, sid);
    }
    assert forall|sid: usize|
        sid < m.subs.len() && (!(#[trigger] m.subs[sid as int]).active || count_of(
            ent(m, eid).observers,
            sid,
        ) == 0) implies m3.subs[sid as int].log == m.subs[sid as int].log by {
        lemma_deliver_log_none(m1, obs, 0, d, sid);
    }
}

/// The records one flush appends to the delivery trace: the armed,
/// registered subscriptions from position `i` of the snapshot on, in
/// list — that is registration — order, each paired with the record.
pub open spec fn flush_trace(m: AppModel, sids: Seq<usize>, i: int, d: Delivery) -> Seq<
    (usize, Delivery),
>
    decreases sids.len() - i,
{
    if i < 0 || i >= sids.len() {
        seq![]
    } else {
        let rest = flush_trace(m, sids, i + 1, d);
        if sids[i] < m.subs.len() && m.subs[sids[i] as int].active {
            seq![(sids[i], d)] + rest
        } else {
            rest
        }
    }
}

/// The flush trace depends only on which subscriptions exist and are
/// armed.
pub proof fn lemma_flush_trace_same(
    m1: AppModel,
    m2: AppModel,
    sids: Seq<usize>,
    i: int,
    d: Delivery,
)
    requires
        m1.subs.len() == m2.subs.len(),
        forall|j: int| 0 <= j < m1.subs.len() ==> m1.subs[j].active == m2.subs[j].active,
    ensures
        flush_trace(m1, sids, i, d) == flush_trace(m2, sids, i, d),
    decreases sids.len() - i,
{
    if 0 <= i < sids.len() {
        lemma_flush_trace_same(m1, m2, sids, i + 1, d);
    }
}

/// Delivery appends to the trace exactly the armed registrations of the
/// snapshot, in list order.
pub proof fn lemma_deliver_trace(m: AppModel, sids: Seq<usize>, i: int, d: Delivery)
    ensures
        spec_deliver_from(m, sids, i, d).delivered == m.delivered + flush_trace(m, sids, i, d),
    decreases sids.len() - i,
{
    if i < 0 || i >= sids.len() {
        assert(m.delivered =~= m.delivered + flush_trace(m, sids, i, d));
    } else {
        let m1 = spec_deliver_one(m, sids[i], d);
        lemma_deliver_trace(m1, sids, i + 1, d);
        lemma_deliver_frame(m, sids, i, d);
        lemma_flush_trace_same(m1, m, sids, i + 1, d);
        if sids[i] < m.subs.len() && m.subs[sids[i] as int].active {
            assert(m1.delivered == m.delivered.push((sids[i], d)));
            assert(m.delivered.push((sids[i], d)) + flush_trace(m, sids, i + 1, d) =~= m.delivered
                + flush_trace(m, sids, i, d));
        } else {
            assert(m1 == m);
            assert(m.delivered + flush_trace(m, sids, i + 1, d) =~= m.delivered + flush_trace(
                m,
                sids,
                i,
                d,
            ));
        }
    }
}

/// Within one plain update, observers are served in registration order:
/// the delivery trace grows by exactly the armed observers of the
/// entity, in the order they registered, each with a "changed" record
/// carrying the update's final value.
pub proof fn lemma_update_delivers_in_registration_order(
    m: AppModel,
    eid: usize,
    steps: Seq<UpdateStep>,
)
    requires
        live(m, eid),
        plain_from(steps, 0),
    ensures
        ({
            let (m3, res) = spec_update(m, eid, steps);
            m3.delivered == m.delivered + flush_trace(
                m,
                ent(m, eid).observers,
                0,
                Delivery::Changed { value: res.unwrap() },
            )
        }),
{
    lemma_first_bad_plain(m, eid, steps, 0);
    lemma_apply_plain(m, eid, steps, 0, seq![]);
    let (m1, pending) = spec_apply_from(m, eid, steps, 0, seq![]);
    assert(spec_flush_events_from(m1, eid, pending, 0) == m1);
    let v = crate::store::value_at(m1, eid);
    let obs = crate::store::observers_at(m1, eid);
    assert(obs == ent(m, eid).observers);
    let d = Delivery::Changed { value: v };
    lemma_deliver_trace(m1, obs, 0, d);
    lemma_flush_trace_same(m1, m, obs, 0, d);
}

/// A sequence of update closures run against the same handle, from batch
/// `i` on.
pub open spec fn run_updates_from(
    m: AppModel,
    eid: usize,
    batches: Seq<Seq<UpdateStep>>,
    i: int,
) -> AppModel
    decreases batches.len() - i,
{
    if i < 0 || i >= batches.len() {
        m
    } else {
        run_updates_from(spec_update(m, eid, batches[i]).0, eid, batches, i + 1)
    }
}

/// All remaining batches are plain value mutations.
pub open spec fn all_plain_from(batches: Seq<Seq<UpdateStep>>, i: int) -> bool {
    forall|k: int| i <= k < batches.len() ==> plain_from(#[trigger] batches[k], 0)
}

/// After a build and N plain updates on the same handle, an observer that
/// was armed and registered (exactly once) before the first of them has
/// received exactly N "changed" notifications — no more, no fewer — and
/// nothing it had received before is disturbed. Within each update the
/// observers are served in registration order; that per-flush order is
/// part of `update_model`'s own contract over the delivery trace.
pub proof fn lemma_observer_counts_updates(
    m: AppModel,
    eid: usize,
    sid: usize,
    batches: Seq<Seq<UpdateStep>>,
    i: int,
)
    requires
        live(m, eid),
        sid < m.subs.len(),
        m.subs[sid as int].active,
        count_of(ent(m, eid).observers, sid) == 1,
        all_plain_from(batches, i),
        0 <= i <= batches.len(),
    ensures
        ({
            let r = run_updates_from(m, eid, batches, i);
            &&& r.subs.len() == m.subs.len()
            &&& r.subs[sid as int].log.len() == m.subs[sid as int].log.len() + (batches.len() - i)
            &&& forall|j: int|
                0 <= j < m.subs[sid as int].log.len() ==> r.subs[sid as int].log[j]
                    == m.subs[sid as int].log[j]
            &&& forall|j: int|
                m.subs[sid as int].log.len() <= j < r.subs[sid as int].log.len() ==> (
                #[trigger] r.subs[sid as int].log[j]) is Changed
        }),
    decreases batches.len() - i,
{
    if i < batches.len() {
        assert(plain_from(batches[i], 0));
        lemma_update_plain(m, eid, batches[i]);
        let m2 = spec_update(m, eid, batches[i]).0;
        lemma_observer_counts_updates(m2, eid, sid, batches, i + 1);
    }
}

/// A disarmed subscription receives nothing from any number of plain
/// updates, and stays disarmed.
pub proof fn lemma_inactive_stays_silent(
    m: AppModel,
    eid: usize,
    sid: usize,
    batches: Seq<Seq<UpdateStep>>,
    i: int,
)
    requires
        sid < m.subs.len(),
        !m.subs[sid as int].active,
        all_plain_from(batches, i),
        0 <= i <= batches.len(),
    ensures
        run_updates_from(m, eid, batches, i).subs.len() == m.subs.len(),
        run_updates_from(m, eid, batches, i).subs[sid as int].log == m.subs[sid as int].log,
        !run_updates_from(m, eid, batches, i).subs[sid as int].active,
    decreases batches.len() - i,
{
    if i < batches.len() {
        assert(plain_from(batches[i], 0));
        if live(m, eid) {
            lemma_update_plain(m, eid, batches[i]);
        } else {
            assert(spec_update(m, eid, batches[i]).0 == m);
        }
        lemma_inactive_stays_silent(spec_update(m, eid, batches[i]).0, eid, sid, batches, i + 1);
    }
}

/// Dropping a subscription guard before the next triggering event
/// guarantees zero further deliveries to its callback: however many plain
/// updates follow the cancellation, its log is exactly what it was.
pub proof fn lemma_dropped_subscription_silent(
    m: AppModel,
    eid: usize,
    sid: usize,
    batches: Seq<Seq<UpdateStep>>,
)
    requires
        sid < m.subs.len(),
        all_plain_from(batches, 0),
    ensures
        run_updates_from(spec_cancel(m, sid), eid, batches, 0).subs[sid as int].log
            == m.subs[sid as int].log,
{
    let mc = spec_cancel(m, sid);
    assert(mc.subs[sid as int].log == m.subs[sid as int].log);
    assert(!mc.subs[sid as int].active);
    lemma_inactive_stays_silent(mc, eid, sid, batches, 0);
}

/// While an entity is live, plain updates through any handle to it keep
/// resolving: the update succeeds.
pub proof fn lemma_handle_resolves_while_live(m: AppModel, eid: usize, steps: Seq<UpdateStep>)
    requires
        live(m, eid),
        plain_from(steps, 0),
    ensures
        spec_update(m, eid, steps).1 is Ok,
{
    lemma_update_plain(m, eid, steps);
}

/// A drop that is not the last keeps the entity live, with one owner
/// fewer.
pub proof fn lemma_drop_keeps_live(m: AppModel, eid: usize)
    requires
        live(m, eid),
        ent(m, eid).strong >= 2,
    ensures
        live(spec_drop(m, eid), eid),
        ent(spec_drop(m, eid), eid).strong == ent(m, eid).strong - 1,
{
}

/// After the last strong handle drops, the identity stops resolving:
/// weak handles fail to upgrade and every update through it fails with
/// `Stale`, leaving the store alone.
pub proof fn lemma_last_drop_invalidates(m: AppModel, eid: usize)
    requires
        live(m, eid),
        ent(m, eid).strong <= 1,
    ensures
        !live(spec_drop(m, eid), eid),
        !spec_upgrade_ok(spec_drop(m, eid), eid),
        forall|steps: Seq<UpdateStep>|
            #[trigger] spec_update(spec_drop(m, eid), eid, steps) == (
                spec_drop(m, eid),
                Result::<u64, StoreError>::Err(StoreError::Stale),
            ),
{
}

/// A nested update targeting the entity already under update.
pub open spec fn is_self_nested(s: UpdateStep, eid: usize) -> bool {
    match s {
        UpdateStep::Nested { target, value } => target == eid,
        _ => false,
    }
}

/// Every nested call in the closure targets the entity under update.
pub open spec fn nested_only_self(steps: Seq<UpdateStep>, eid: usize, i: int) -> bool {
    forall|k: int|
        i <= k < steps.len() && (#[trigger] steps[k]) is Nested ==> is_self_nested(steps[k], eid)
}

/// Scanning a closure whose nested calls all target the entity under
/// update, and which has at least one, finds the re-entrancy fault.
pub proof fn lemma_first_bad_self(m: AppModel, eid: usize, steps: Seq<UpdateStep>, i: int)
    requires
        0 <= i <= steps.len(),
        nested_only_self(steps, eid, i),
        exists|k: int| i <= k < steps.len() && (#[trigger] steps[k]) is Nested,
    ensures
        first_bad_from(m, eid, steps, i) == Some(StoreError::Reentrant),
    decreases steps.len() - i,
{
    let k = choose|k: int| i <= k < steps.len() && (#[trigger] steps[k]) is Nested;
    if steps[i] is Nested {
        assert(is_self_nested(steps[i], eid));
    } else {
        assert(k >= i + 1);
        lemma_first_bad_self(m, eid, steps, i + 1);
    }
}

/// Re-entrant `update_model` on the same identity from within its own
/// active update fails deterministically with `Reentrant`, and the
/// store — the entity's value included — is exactly what it was.
pub proof fn lemma_reentrant_update_fails(m: AppModel, eid: usize, steps: Seq<UpdateStep>)
    requires
        live(m, eid),
        nested_only_self(steps, eid, 0),
        exists|k: int| 0 <= k < steps.len() && (#[trigger] steps[k]) is Nested,
    ensures
        spec_update(m, eid, steps) == (
            m,
            Result::<u64, StoreError>::Err(StoreError::Reentrant),
        ),
{
    lemma_first_bad_self(m, eid, steps, 0);
}

/// With a fixed seed, a fixed clock and a fixed task list, the virtual
/// scheduler's full run — its completion order included — is identical
/// across repeated runs: the run is a pure function of that state, so two
/// equal starting states run to equal ends.
pub proof fn lemma_fixed_seed_replays(d1: DispModel, d2: DispModel)
    requires
        d1.rng == d2.rng,
        d1.now == d2.now,
        d1.tasks =~= d2.tasks,
        d1.completions =~= d2.completions,
    ensures
        disp_run(d1) == disp_run(d2),
{
    assert(d1 =~= d2);
}

/// Mutating a global slot fires no notification: every subscription log,
/// the delivery trace, every entity and every window are exactly what
/// they were.
pub proof fn lemma_global_write_fires_nothing(m: AppModel, key: u64, op: GlobalOp)
    ensures
        spec_update_global(m, key, op).0.subs == m.subs,
        spec_update_global(m, key, op).0.delivered == m.delivered,
        spec_update_global(m, key, op).0.entities == m.entities,
        spec_update_global(m, key, op).0.windows == m.windows,
        spec_update_global(m, key, op).0.alive == m.alive,
{
}

} // verus!
