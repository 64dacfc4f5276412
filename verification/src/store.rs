//! The entity store: a single-owner arena of application entities keyed by
//! stable integer identities, together with the subscription bus, the
//! global-slot registry and the window table.
//!
//! Every operation is described against a ghost model (`AppModel`) by a
//! total spec-level transition, so that properties of whole operation
//! sequences can be proved by induction over those transitions.

use vstd::prelude::*;

verus! {

// ---------------------------------------------------------------------------
// Public plain data
// ---------------------------------------------------------------------------

/// The two notification kinds a subscription can listen for: generic
/// "changed" signals or domain events with a payload.
#[derive(Clone, Copy, PartialEq, Eq, Structural, Debug)]
pub enum SubKind {
    Observe,
    Listen,
}

/// One record appended to a subscriber's delivery log.
#[derive(Clone, Copy, PartialEq, Eq, Structural, Debug)]
pub enum Delivery {
    /// The observed entity finished a successful update; `value` is the
    /// entity's value at delivery time.
    Changed { value: u64 },
    /// The source entity emitted a domain event with this payload.
    Event { payload: u64 },
}

/// Recoverable failures of store operations.
#[derive(Clone, Copy, PartialEq, Eq, Structural, Debug)]
pub enum StoreError {
    /// The handle no longer resolves to a live entity or window.
    Stale,
    /// A mutable re-entry into an entity already under exclusive access.
    Reentrant,
    /// The whole application has been torn down (weak context resolution
    /// failed).
    AppReleased,
}

/// One step of an update closure, as data: the mutation an `update_model`
/// callback performs on the exclusively borrowed value, plus the nested
/// context calls it is allowed to make.
#[derive(Clone, Copy, PartialEq, Eq, Structural, Debug)]
pub enum UpdateStep {
    /// Overwrite the entity's value.
    Assign { value: u64 },
    /// Add to the entity's value, wrapping on overflow.
    Add { delta: u64 },
    /// Emit a domain event; delivered to listeners after the update returns.
    Emit { payload: u64 },
    /// A nested `update_model` on another entity, setting its value.
    /// Targeting the entity already under update is a re-entrancy fault.
    Nested { target: usize, value: u64 },
}

/// A mutation of a global slot's value.
#[derive(Clone, Copy, PartialEq, Eq, Structural, Debug)]
pub enum GlobalOp {
    Assign { value: u64 },
    Add { delta: u64 },
}

/// A strong, typed handle: shared ownership of one entity's lifetime.
/// Identity is the stable arena id; cloning goes through
/// [`AppContext::clone_model`] so that the reference count stays exact.
#[derive(PartialEq, Eq, Structural, Debug)]
pub struct Model {
    pub id: usize,
}

/// A non-owning back-reference to an entity; resolving it fails once the
/// entity (or the whole store) is gone.
#[derive(Clone, Copy, PartialEq, Eq, Structural, Debug)]
pub struct WeakModel {
    pub id: usize,
}

/// A live registration on the subscription bus; cancelling it stops all
/// further deliveries to its log.
#[derive(PartialEq, Eq, Structural, Debug)]
pub struct Subscription {
    pub id: usize,
}

/// A window-identified resource, subject to the same scoped-access contract
/// as entities.
#[derive(Clone, Copy, PartialEq, Eq, Structural, Debug)]
pub struct AnyWindowHandle {
    pub id: usize,
}

/// A window's state: its root value and whether it needs a redraw.
#[derive(Clone, Copy, PartialEq, Eq, Structural, Debug)]
pub struct Window {
    pub value: u64,
    pub dirty: bool,
}

// ---------------------------------------------------------------------------
// Ghost model
// ---------------------------------------------------------------------------

/// Ghost model of one live entity: its value, its strong-handle count, and
/// its subscription lists in registration order.
#[verifier::ext_equal]
pub struct EntityModel {
    pub value: u64,
    pub strong: u64,
    pub observers: Seq<usize>,
    pub listeners: Seq<usize>,
}

/// Ghost model of one subscription record.
#[verifier::ext_equal]
pub struct SubModel {
    pub active: bool,
    pub source: usize,
    pub kind: SubKind,
    pub log: Seq<Delivery>,
}

/// Ghost model of the whole store. `entities` is indexed by identity;
/// released slots stay as `None` so identities are never reused.
/// `delivered` is the global delivery trace, in delivery order.
#[verifier::ext_equal]
pub struct AppModel {
    pub alive: bool,
    pub entities: Seq<Option<EntityModel>>,
    pub subs: Seq<SubModel>,
    pub globals: Seq<(u64, u64)>,
    pub windows: Seq<Window>,
    pub delivered: Seq<(usize, Delivery)>,
}

/// An entity identity currently resolvable to a live entity.
pub open spec fn live(m: AppModel, id: usize) -> bool {
    m.alive && id < m.entities.len() && m.entities[id as int] is Some
}

/// The live entity behind `id`.
pub open spec fn ent(m: AppModel, id: usize) -> EntityModel
    recommends
        live(m, id),
{
    m.entities[id as int].unwrap()
}

/// The entity's value, total: zero when the slot is not filled.
pub open spec fn value_at(m: AppModel, id: usize) -> u64 {
    if id < m.entities.len() && m.entities[id as int] is Some {
        ent(m, id).value
    } else {
        0
    }
}

/// The entity's observer list, total: empty when the slot is not filled.
pub open spec fn observers_at(m: AppModel, id: usize) -> Seq<usize> {
    if id < m.entities.len() && m.entities[id as int] is Some {
        ent(m, id).observers
    } else {
        Seq::empty()
    }
}

/// The entity's listener list, total: empty when the slot is not filled.
pub open spec fn listeners_at(m: AppModel, id: usize) -> Seq<usize> {
    if id < m.entities.len() && m.entities[id as int] is Some {
        ent(m, id).listeners
    } else {
        Seq::empty()
    }
}

// ---------------------------------------------------------------------------
// Spec transitions: handle lifecycle
// ---------------------------------------------------------------------------

/// Building an entity: a fresh slot at the end of the arena, one strong
/// handle, no subscribers. The new identity is `m.entities.len()`.
pub open spec fn spec_build(m: AppModel, v: u64) -> AppModel {
    AppModel {
        entities: m.entities.push(
            Some(EntityModel { value: v, strong: 1, observers: seq![], listeners: seq![] }),
        ),
        ..m
    }
}

/// Cloning a strong handle: one more owner.
pub open spec fn spec_clone(m: AppModel, id: usize) -> AppModel {
    if id < m.entities.len() && m.entities[id as int] is Some {
        AppModel {
            entities: m.entities.update(
                id as int,
                Some(EntityModel { strong: (ent(m, id).strong + 1) as u64, ..ent(m, id) }),
            ),
            ..m
        }
    } else {
        m
    }
}

/// Dropping a strong handle: one owner fewer; the last drop releases the
/// slot. Total: dropping a handle to a released slot is a no-op.
pub open spec fn spec_drop(m: AppModel, id: usize) -> AppModel {
    if id < m.entities.len() && m.entities[id as int] is Some {
        if ent(m, id).strong <= 1 {
            AppModel { entities: m.entities.update(id as int, None), ..m }
        } else {
            AppModel {
                entities: m.entities.update(
                    id as int,
                    Some(EntityModel { strong: (ent(m, id).strong - 1) as u64, ..ent(m, id) }),
                ),
                ..m
            }
        }
    } else {
        m
    }
}

/// Resolving a weak handle: succeeds exactly on live entities whose
/// reference count has room, and then counts as one more owner.
pub open spec fn spec_upgrade_ok(m: AppModel, id: usize) -> bool {
    live(m, id) && ent(m, id).strong < u64::MAX
}

// ---------------------------------------------------------------------------
// Spec transitions: subscription bus
// ---------------------------------------------------------------------------

/// Registering a subscription of the given kind on entity `id`: a fresh
/// record (its id is `m.subs.len()`), appended to the entity's matching
/// list, so lists stay in registration order.
pub open spec fn spec_register(m: AppModel, id: usize, kind: SubKind) -> AppModel {
    if id < m.entities.len() && m.entities[id as int] is Some {
        let sid = m.subs.len() as usize;
        let e = ent(m, id);
        let e2 = if kind is Observe {
            EntityModel { observers: e.observers.push(sid), ..e }
        } else {
            EntityModel { listeners: e.listeners.push(sid), ..e }
        };
        AppModel {
            entities: m.entities.update(id as int, Some(e2)),
            subs: m.subs.push(SubModel { active: true, source: id, kind, log: seq![] }),
            ..m
        }
    } else {
        m
    }
}

/// Cancelling a subscription disarms it; its log stays readable.
pub open spec fn spec_cancel(m: AppModel, sid: usize) -> AppModel {
    if sid < m.subs.len() {
        AppModel {
            subs: m.subs.update(sid as int, SubModel { active: false, ..m.subs[sid as int] }),
            ..m
        }
    } else {
        m
    }
}

/// One delivery: appended to the subscription's log and to the global
/// delivery trace, but only while the subscription is still active.
pub open spec fn spec_deliver_one(m: AppModel, sid: usize, d: Delivery) -> AppModel {
    if sid < m.subs.len() && m.subs[sid as int].active {
        AppModel {
            subs: m.subs.update(
                sid as int,
                SubModel { log: m.subs[sid as int].log.push(d), ..m.subs[sid as int] },
            ),
            delivered: m.delivered.push((sid, d)),
            ..m
        }
    } else {
        m
    }
}

/// Delivery to a snapshot of registrations, from position `i` on, in list
/// (that is registration) order.
pub open spec fn spec_deliver_from(m: AppModel, sids: Seq<usize>, i: int, d: Delivery) -> AppModel
    decreases sids.len() - i,
{
    if i < 0 || i >= sids.len() {
        m
    } else {
        spec_deliver_from(spec_deliver_one(m, sids[i], d), sids, i + 1, d)
    }
}

// ---------------------------------------------------------------------------
// Spec transitions: updates
// ---------------------------------------------------------------------------

/// Overwriting a live entity's value; total: no effect on released slots.
pub open spec fn spec_set_value(m: AppModel, id: usize, v: u64) -> AppModel {
    if id < m.entities.len() && m.entities[id as int] is Some {
        AppModel {
            entities: m.entities.update(id as int, Some(EntityModel { value: v, ..ent(m, id) })),
            ..m
        }
    } else {
        m
    }
}

/// The first fault among the nested calls of an update closure, scanning
/// from step `i`: re-entry into the entity under update, or a nested
/// update of a released entity.
pub open spec fn first_bad_from(m: AppModel, eid: usize, steps: Seq<UpdateStep>, i: int) -> Option<
    StoreError,
>
    decreases steps.len() - i,
{
    if i < 0 || i >= steps.len() {
        None
    } else {
        match steps[i] {
            UpdateStep::Nested { target, value } => {
                if target == eid {
                    Some(StoreError::Reentrant)
                } else if !live(m, target) {
                    Some(StoreError::Stale)
                } else {
                    first_bad_from(m, eid, steps, i + 1)
                }
            },
            _ => first_bad_from(m, eid, steps, i + 1),
        }
    }
}

/// Folding the update closure's steps over the store, from step `i`.
/// Value mutations act on the entity under update; emitted events are
/// queued; a nested update writes the other entity and flushes its own
/// "changed" notifications the moment that nested call returns.
pub open spec fn spec_apply_from(
    m: AppModel,
    eid: usize,
    steps: Seq<UpdateStep>,
    i: int,
    pending: Seq<u64>,
) -> (AppModel, Seq<u64>)
    decreases steps.len() - i,
{
    if i < 0 || i >= steps.len() {
        (m, pending)
    } else {
        match steps[i] {
            UpdateStep::Assign { value } => spec_apply_from(
                spec_set_value(m, eid, value),
                eid,
                steps,
                i + 1,
                pending,
            ),
            UpdateStep::Add { delta } => spec_apply_from(
                spec_set_value(
                    m,
                    eid,
                    vstd::wrapping::u64_specs::wrapping_add(value_at(m, eid), delta),
                ),
                eid,
                steps,
                i + 1,
                pending,
            ),
            UpdateStep::Emit { payload } => spec_apply_from(m, eid, steps, i + 1, pending.push(payload)),
            UpdateStep::Nested { target, value } => {
                let m1 = spec_set_value(m, target, value);
                let m2 = spec_deliver_from(
                    m1,
                    observers_at(m1, target),
                    0,
                    Delivery::Changed { value },
                );
                spec_apply_from(m2, eid, steps, i + 1, pending)
            },
        }
    }
}

/// Flushing the events queued during an update, from event `i` on: each
/// payload goes to the entity's listeners, in registration order, event
/// order preserved.
pub open spec fn spec_flush_events_from(m: AppModel, eid: usize, pending: Seq<u64>, i: int) -> AppModel
    decreases pending.len() - i,
{
    if i < 0 || i >= pending.len() {
        m
    } else {
        let m1 = spec_deliver_from(
            m,
            listeners_at(m, eid),
            0,
            Delivery::Event { payload: pending[i] },
        );
        spec_flush_events_from(m1, eid, pending, i + 1)
    }
}

/// The whole `update_model` transition. A stale handle fails without side
/// effects; a faulty nested call (re-entrancy, stale target) fails without
/// side effects; otherwise the steps run with exclusive access, then the
/// queued events are flushed to listeners, then exactly one "changed"
/// notification reaches each observer registered before the update, in
/// registration order, carrying the value the update left behind.
pub open spec fn spec_update(m: AppModel, eid: usize, steps: Seq<UpdateStep>) -> (AppModel, Result<
    u64,
    StoreError,
>) {
    if !live(m, eid) {
        (m, Err(StoreError::Stale))
    } else if first_bad_from(m, eid, steps, 0) is Some {
        (m, Err(first_bad_from(m, eid, steps, 0).unwrap()))
    } else {
        let (m1, pending) = spec_apply_from(m, eid, steps, 0, seq![]);
        let v = value_at(m1, eid);
        let m2 = spec_flush_events_from(m1, eid, pending, 0);
        let m3 = spec_deliver_from(m2, observers_at(m2, eid), 0, Delivery::Changed { value: v });
        (m3, Ok(v))
    }
}

// ---------------------------------------------------------------------------
// Spec transitions: globals, windows, teardown
// ---------------------------------------------------------------------------

/// The position of a key in the global-slot table, scanning from `i`.
pub open spec fn g_find_from(gs: Seq<(u64, u64)>, key: u64, i: int) -> Option<int>
    decreases gs.len() - i,
{
    if i < 0 || i >= gs.len() {
        None
    } else if gs[i].0 == key {
        Some(i)
    } else {
        g_find_from(gs, key, i + 1)
    }
}

/// Whether a global slot for `key` holds a value.
pub open spec fn spec_has_global(m: AppModel, key: u64) -> bool {
    g_find_from(m.globals, key, 0) is Some
}

/// The value in the global slot for `key`.
pub open spec fn spec_global_value(m: AppModel, key: u64) -> u64
    recommends
        spec_has_global(m, key),
{
    m.globals[g_find_from(m.globals, key, 0).unwrap()].1
}

/// Writing a global slot: last write wins, an absent slot is created.
/// Globals fire no notifications: subscriptions and the delivery trace
/// are untouched.
pub open spec fn spec_set_global(m: AppModel, key: u64, v: u64) -> AppModel {
    match g_find_from(m.globals, key, 0) {
        Some(i) => AppModel { globals: m.globals.update(i, (key, v)), ..m },
        None => AppModel { globals: m.globals.push((key, v)), ..m },
    }
}

/// Removing a global slot, if present.
pub open spec fn spec_remove_global(m: AppModel, key: u64) -> AppModel {
    match g_find_from(m.globals, key, 0) {
        Some(i) => AppModel { globals: m.globals.remove(i), ..m },
        None => m,
    }
}

/// The value `update_global` starts from: the slot's value, or the
/// default (zero) for the default-constructing variant on an absent slot.
pub open spec fn spec_global_or_default(m: AppModel, key: u64) -> u64 {
    match g_find_from(m.globals, key, 0) {
        Some(i) => m.globals[i].1,
        None => 0,
    }
}

/// The result of a global mutation.
pub open spec fn spec_global_op(cur: u64, op: GlobalOp) -> u64 {
    match op {
        GlobalOp::Assign { value } => value,
        GlobalOp::Add { delta } => vstd::wrapping::u64_specs::wrapping_add(cur, delta),
    }
}

/// Mutating a global slot in place, default-constructing it when absent.
pub open spec fn spec_update_global(m: AppModel, key: u64, op: GlobalOp) -> (AppModel, u64) {
    let v = spec_global_op(spec_global_or_default(m, key), op);
    (spec_set_global(m, key, v), v)
}

/// Opening a window: a fresh window id, clean, with the given root value.
pub open spec fn spec_open_window(m: AppModel, v: u64) -> AppModel {
    AppModel { windows: m.windows.push(Window { value: v, dirty: false }), ..m }
}

/// A window-scoped update: overwrite the root value and mark the window
/// as needing a redraw.
pub open spec fn spec_update_window(m: AppModel, id: usize, v: u64) -> AppModel {
    if id < m.windows.len() {
        AppModel { windows: m.windows.update(id as int, Window { value: v, dirty: true }), ..m }
    } else {
        m
    }
}

/// Refreshing marks every window as needing a redraw, from `i` on.
pub open spec fn spec_refresh_from(m: AppModel, i: int) -> AppModel
    decreases m.windows.len() - i,
{
    if i < 0 || i >= m.windows.len() {
        m
    } else {
        spec_refresh_from(
            AppModel {
                windows: m.windows.update(i, Window { value: m.windows[i].value, dirty: true }),
                ..m
            },
            i + 1,
        )
    }
}

/// Releasing every entity slot, from `i` on (teardown).
pub open spec fn spec_clear_from(m: AppModel, i: int) -> AppModel
    decreases m.entities.len() - i,
{
    if i < 0 || i >= m.entities.len() {
        m
    } else {
        spec_clear_from(AppModel { entities: m.entities.update(i, None), ..m }, i + 1)
    }
}

/// Teardown: the store stops being alive, every entity is released and
/// every global slot dropped. Subscription logs stay readable.
pub open spec fn spec_quit(m: AppModel) -> AppModel {
    AppModel { alive: false, globals: seq![], ..spec_clear_from(m, 0) }
}

// ---------------------------------------------------------------------------
// Executable store
// ---------------------------------------------------------------------------

struct Entity {
    value: u64,
    strong: u64,
    observers: Vec<usize>,
    listeners: Vec<usize>,
}

struct SubRec {
    active: bool,
    source: usize,
    kind: SubKind,
    log: Vec<Delivery>,
}

/// The single owner of all entities, subscriptions, global slots and
/// windows. All shared state is reached through it.
pub struct AppContext {
    alive: bool,
    entities: Vec<Option<Entity>>,
    subs: Vec<SubRec>,
    globals: Vec<(u64, u64)>,
    windows: Vec<Window>,
    delivered: Vec<(usize, Delivery)>,
}

impl View for Entity {
    type V = EntityModel;

    closed spec fn view(&self) -> EntityModel {
        EntityModel {
            value: self.value,
            strong: self.strong,
            observers: self.observers@,
            listeners: self.listeners@,
        }
    }
}

impl View for SubRec {
    type V = SubModel;

    closed spec fn view(&self) -> SubModel {
        SubModel { active: self.active, source: self.source, kind: self.kind, log: self.log@ }
    }
}

impl View for AppContext {
    type V = AppModel;

    closed spec fn view(&self) -> AppModel {
        AppModel {
            alive: self.alive,
            entities: Seq::new(
                self.entities@.len(),
                |i: int|
                    match self.entities@[i] {
                        Some(e) => Some(e@),
                        None => None,
                    },
            ),
            subs: Seq::new(self.subs@.len(), |i: int| self.subs@[i]@),
            globals: self.globals@,
            windows: self.windows@,
            delivered: self.delivered@,
        }
    }
}

impl AppContext {
    /// A fresh, alive store with nothing in it.
    pub fn new() -> (r: AppContext)
        ensures
            r@ == (AppModel {
                alive: true,
                entities: Seq::empty(),
                subs: Seq::empty(),
                globals: Seq::empty(),
                windows: Seq::empty(),
                delivered: Seq::empty(),
            }),
    {
        let r = AppContext {
            alive: true,
            entities: Vec::new(),
            subs: Vec::new(),
            globals: Vec::new(),
            windows: Vec::new(),
            delivered: Vec::new(),
        };
        proof {
            assert(r@ =~= AppModel {
                alive: true,
                entities: Seq::empty(),
                subs: Seq::empty(),
                globals: Seq::empty(),
                windows: Seq::empty(),
                delivered: Seq::empty(),
            });
        }
        r
    }

    /// Whether the store is still alive (not torn down).
    pub fn is_alive(&self) -> (r: bool)
        ensures
            r == self@.alive,
    {
        self.alive
    }

    /// Allocates a new entity with the given initial value and returns the
    /// first strong handle to it. The handle's identity is the index of
    /// the fresh slot.
    pub fn build_model(&mut self, initial: u64) -> (h: Model)
        requires
            old(self)@.alive,
        ensures
            final(self)@ == spec_build(old(self)@, initial),
            h.id == old(self)@.entities.len(),
            live(final(self)@, h.id),
            ent(final(self)@, h.id) == (EntityModel {
                value: initial,
                strong: 1,
                observers: seq![],
                listeners: seq![],
            }),
    {
        let id = self.entities.len();
        self.entities.push(
            Some(Entity { value: initial, strong: 1, observers: Vec::new(), listeners: Vec::new() }),
        );
        proof {
            assert(self@.entities =~= spec_build(old(self)@, initial).entities);
            assert(self@ =~= spec_build(old(self)@, initial));
        }
        Model { id }
    }

    /// Reads the entity's value. Permitted whenever the handle is live; no
    /// update can be in progress, since updates hold the store exclusively
    /// for their whole duration.
    pub fn read_model(&self, handle: &Model) -> (r: u64)
        requires
            live(self@, handle.id),
        ensures
            r == ent(self@, handle.id).value,
    {
        match &self.entities[handle.id] {
            Some(e) => e.value,
            None => 0,
        }
    }

    /// Clones a strong handle: the entity gains one owner.
    pub fn clone_model(&mut self, handle: &Model) -> (h: Model)
        requires
            live(old(self)@, handle.id),
            ent(old(self)@, handle.id).strong < u64::MAX,
        ensures
            final(self)@ == spec_clone(old(self)@, handle.id),
            h.id == handle.id,
    {
        let id = handle.id;
        let slot = &mut self.entities[id];
        match slot {
            Some(e) => {
                e.strong = e.strong + 1;
            },
            None => {},
        }
        proof {
            assert(self@.entities =~= spec_clone(old(self)@, id).entities);
            assert(self@ =~= spec_clone(old(self)@, id));
        }
        Model { id }
    }

    /// Drops a strong handle: the entity loses one owner, and the last
    /// drop releases the slot for good. Dropping a handle whose entity is
    /// already gone (after teardown) is a no-op.
    pub fn drop_model(&mut self, handle: Model) -> (released: bool)
        ensures
            final(self)@ == spec_drop(old(self)@, handle.id),
            released == (handle.id < old(self)@.entities.len()
                && old(self)@.entities[handle.id as int] is Some
                && ent_strong(old(self)@, handle.id) <= 1),
    {
        let id = handle.id;
        if id >= self.entities.len() {
            proof {
                assert(self@ =~= spec_drop(old(self)@, id));
            }
            return false;
        }
        let mut released = false;
        let slot = &mut self.entities[id];
        match slot {
            Some(e) => {
                if e.strong <= 1 {
                    *slot = None;
                    released = true;
                } else {
                    e.strong = e.strong - 1;
                }
            },
            None => {},
        }
        proof {
            assert(self@.entities =~= spec_drop(old(self)@, id).entities);
            assert(self@ =~= spec_drop(old(self)@, id));
        }
        released
    }

    /// Downgrades a strong handle to a weak one with the same identity.
    pub fn downgrade(&self, handle: &Model) -> (w: WeakModel)
        ensures
            w.id == handle.id,
    {
        WeakModel { id: handle.id }
    }

    /// Resolves a weak handle: a strong handle comes back exactly while
    /// the entity is live (and its owner count has room); the new strong
    /// handle counts as one more owner.
    pub fn upgrade(&mut self, weak: &WeakModel) -> (r: Option<Model>)
        ensures
            r is Some <==> spec_upgrade_ok(old(self)@, weak.id),
            r is Some ==> final(self)@ == spec_clone(old(self)@, weak.id) && r.unwrap().id
                == weak.id,
            r is None ==> final(self)@ == old(self)@,
    {
        let id = weak.id;
        if !self.alive || id >= self.entities.len() {
            return None;
        }
        let can = match &self.entities[id] {
            Some(e) => e.strong < u64::MAX,
            None => false,
        };
        if !can {
            return None;
        }
        let slot = &mut self.entities[id];
        match slot {
            Some(e) => {
                e.strong = e.strong + 1;
            },
            None => {},
        }
        proof {
            assert(self@.entities =~= spec_clone(old(self)@, id).entities);
            assert(self@ =~= spec_clone(old(self)@, id));
        }
        Some(Model { id })
    }
}

/// The entity's strong-handle count, total: zero for released slots.
pub open spec fn ent_strong(m: AppModel, id: usize) -> u64 {
    if id < m.entities.len() && m.entities[id as int] is Some {
        ent(m, id).strong
    } else {
        0
    }
}

impl AppContext {
    /// Registers a changed-listener on the entity: its callback log gains
    /// one `Changed` record per successful update of that entity.
    pub fn observe(&mut self, handle: &Model) -> (s: Subscription)
        requires
            live(old(self)@, handle.id),
        ensures
            final(self)@ == spec_register(old(self)@, handle.id, SubKind::Observe),
            s.id == old(self)@.subs.len(),
    {
        self.register(handle.id, SubKind::Observe)
    }

    /// Registers an event-listener on the entity: its callback log gains
    /// one `Event` record per domain event the entity emits.
    pub fn subscribe(&mut self, handle: &Model) -> (s: Subscription)
        requires
            live(old(self)@, handle.id),
        ensures
            final(self)@ == spec_register(old(self)@, handle.id, SubKind::Listen),
            s.id == old(self)@.subs.len(),
    {
        self.register(handle.id, SubKind::Listen)
    }

    fn register(&mut self, id: usize, kind: SubKind) -> (s: Subscription)
        requires
            live(old(self)@, id),
        ensures
            final(self)@ == spec_register(old(self)@, id, kind),
            s.id == old(self)@.subs.len(),
    {
        let sid = self.subs.len();
        let slot = &mut self.entities[id];
        match slot {
            Some(e) => {
                match kind {
                    SubKind::Observe => e.observers.push(sid),
                    SubKind::Listen => e.listeners.push(sid),
                }
            },
            None => {},
        }
        self.subs.push(SubRec { active: true, source: id, kind, log: Vec::new() });
        proof {
            assert(self@.entities =~= spec_register(old(self)@, id, kind).entities);
            assert(self@.subs =~= spec_register(old(self)@, id, kind).subs);
            assert(self@ =~= spec_register(old(self)@, id, kind));
        }
        Subscription { id: sid }
    }

    /// Cancels a subscription: the drop of its guard. No delivery reaches
    /// its log from here on; what was already delivered stays readable.
    pub fn cancel(&mut self, sub: Subscription) -> (sid: usize)
        ensures
            final(self)@ == spec_cancel(old(self)@, sub.id),
            sid == sub.id,
    {
        let id = sub.id;
        if id < self.subs.len() {
            let rec = &mut self.subs[id];
            rec.active = false;
            proof {
                assert(self@.subs =~= spec_cancel(old(self)@, id).subs);
                assert(self@ =~= spec_cancel(old(self)@, id));
            }
        } else {
            proof {
                assert(self@ =~= spec_cancel(old(self)@, id));
            }
        }
        id
    }

    /// The deliveries this subscription has received so far, oldest first.
    pub fn deliveries(&self, sub: &Subscription) -> (r: &Vec<Delivery>)
        requires
            sub.id < self@.subs.len(),
        ensures
            r@ == self@.subs[sub.id as int].log,
    {
        &self.subs[sub.id].log
    }

    /// Whether a subscription is still armed.
    pub fn is_active(&self, sub: &Subscription) -> (r: bool)
        requires
            sub.id < self@.subs.len(),
        ensures
            r == self@.subs[sub.id as int].active,
    {
        self.subs[sub.id].active
    }

    /// The global delivery trace, in delivery order: which subscription
    /// received which record, across all entities.
    pub fn delivered(&self) -> (r: &Vec<(usize, Delivery)>)
        ensures
            r@ == self@.delivered,
    {
        &self.delivered
    }

    // -- update machinery ---------------------------------------------------

    fn set_value(&mut self, id: usize, v: u64)
        ensures
            final(self)@ == spec_set_value(old(self)@, id, v),
    {
        if id < self.entities.len() {
            let slot = &mut self.entities[id];
            match slot {
                Some(e) => {
                    e.value = v;
                },
                None => {},
            }
            proof {
                assert(self@.entities =~= spec_set_value(old(self)@, id, v).entities);
                assert(self@ =~= spec_set_value(old(self)@, id, v));
            }
        } else {
            proof {
                assert(self@ =~= spec_set_value(old(self)@, id, v));
            }
        }
    }

    fn value_of(&self, id: usize) -> (r: u64)
        ensures
            r == value_at(self@, id),
    {
        if id < self.entities.len() {
            match &self.entities[id] {
                Some(e) => e.value,
                None => 0,
            }
        } else {
            0
        }
    }

    fn copy_observers(&self, id: usize) -> (r: Vec<usize>)
        ensures
            r@ == observers_at(self@, id),
    {
        if id < self.entities.len() {
            match &self.entities[id] {
                Some(e) => copy_ids(&e.observers),
                None => Vec::new(),
            }
        } else {
            Vec::new()
        }
    }

    fn copy_listeners(&self, id: usize) -> (r: Vec<usize>)
        ensures
            r@ == listeners_at(self@, id),
    {
        if id < self.entities.len() {
            match &self.entities[id] {
                Some(e) => copy_ids(&e.listeners),
                None => Vec::new(),
            }
        } else {
            Vec::new()
        }
    }

    fn deliver_from(&mut self, sids: &Vec<usize>, i: usize, d: Delivery)
        requires
            i <= sids@.len(),
        ensures
            final(self)@ == spec_deliver_from(old(self)@, sids@, i as int, d),
        decreases sids@.len() - i,
    {
        if i < sids.len() {
            let sid = sids[i];
            if sid < self.subs.len() {
                let armed = self.subs[sid].active;
                if armed {
                    let rec = &mut self.subs[sid];
                    rec.log.push(d);
                    self.delivered.push((sid, d));
                    proof {
                        assert(self@.subs =~= spec_deliver_one(old(self)@, sid, d).subs);
                        assert(self@ =~= spec_deliver_one(old(self)@, sid, d));
                    }
                }
            }
            proof {
                assert(self@ =~= spec_deliver_one(old(self)@, sid, d));
            }
            self.deliver_from(sids, i + 1, d);
        }
    }

    fn validate_from(&self, eid: usize, steps: &Vec<UpdateStep>, i: usize) -> (r: Option<
        StoreError,
    >)
        requires
            i <= steps@.len(),
        ensures
            r == first_bad_from(self@, eid, steps@, i as int),
        decreases steps@.len() - i,
    {
        if i >= steps.len() {
            None
        } else {
            match steps[i] {
                UpdateStep::Nested { target, value } => {
                    if target == eid {
                        Some(StoreError::Reentrant)
                    } else if !self.alive || target >= self.entities.len()
                        || self.entities[target].is_none() {
                        Some(StoreError::Stale)
                    } else {
                        self.validate_from(eid, steps, i + 1)
                    }
                },
                _ => self.validate_from(eid, steps, i + 1),
            }
        }
    }

    fn apply_from(&mut self, eid: usize, steps: &Vec<UpdateStep>, i: usize, pending: &mut Vec<u64>)
        requires
            i <= steps@.len(),
        ensures
            (final(self)@, final(pending)@) == spec_apply_from(
                old(self)@,
                eid,
                steps@,
                i as int,
                old(pending)@,
            ),
        decreases steps@.len() - i,
    {
        if i < steps.len() {
            match steps[i] {
                UpdateStep::Assign { value } => {
                    self.set_value(eid, value);
                },
                UpdateStep::Add { delta } => {
                    let cur = self.value_of(eid);
                    self.set_value(eid, cur.wrapping_add(delta));
                },
                UpdateStep::Emit { payload } => {
                    pending.push(payload);
                },
                UpdateStep::Nested { target, value } => {
                    self.set_value(target, value);
                    let obs = self.copy_observers(target);
                    self.deliver_from(&obs, 0, Delivery::Changed { value });
                },
            }
            self.apply_from(eid, steps, i + 1, pending);
        }
    }

    fn flush_events_from(&mut self, eid: usize, pending: &Vec<u64>, i: usize)
        requires
            i <= pending@.len(),
        ensures
            final(self)@ == spec_flush_events_from(old(self)@, eid, pending@, i as int),
        decreases pending@.len() - i,
    {
        if i < pending.len() {
            let lis = self.copy_listeners(eid);
            self.deliver_from(&lis, 0, Delivery::Event { payload: pending[i] });
            self.flush_events_from(eid, pending, i + 1);
        }
    }

    /// Grants the update closure, given as its list of steps, exclusive
    /// access to the entity behind the handle. A handle that no longer
    /// resolves fails with `Stale`; a nested re-entry into the same entity
    /// fails with `Reentrant`, both without any side effect. On success the
    /// steps run, queued events reach the listeners, and exactly one
    /// "changed" notification reaches each observer registered before the
    /// update, in registration order; the new value comes back.
    pub fn update_model(&mut self, handle: &Model, steps: &Vec<UpdateStep>) -> (r: Result<
        u64,
        StoreError,
    >)
        ensures
            final(self)@ == spec_update(old(self)@, handle.id, steps@).0,
            r == spec_update(old(self)@, handle.id, steps@).1,
    {
        let eid = handle.id;
        if !self.alive || eid >= self.entities.len() || self.entities[eid].is_none() {
            return Err(StoreError::Stale);
        }
        match self.validate_from(eid, steps, 0) {
            Some(e) => Err(e),
            None => {
                let mut pending: Vec<u64> = Vec::new();
                self.apply_from(eid, steps, 0, &mut pending);
                let v = self.value_of(eid);
                self.flush_events_from(eid, &pending, 0);
                let obs = self.copy_observers(eid);
                self.deliver_from(&obs, 0, Delivery::Changed { value: v });
                Ok(v)
            },
        }
    }

    // -- global slots --------------------------------------------------------

    fn find_global_from(&self, key: u64, i: usize) -> (r: Option<usize>)
        requires
            i <= self@.globals.len(),
        ensures
            match r {
                Some(j) => g_find_from(self@.globals, key, i as int) == Some(j as int) && j
                    < self@.globals.len(),
                None => g_find_from(self@.globals, key, i as int) is None,
            },
        decreases self@.globals.len() - i,
    {
        if i >= self.globals.len() {
            None
        } else if self.globals[i].0 == key {
            Some(i)
        } else {
            self.find_global_from(key, i + 1)
        }
    }

    /// Whether a live instance fills the global slot for this type key.
    pub fn has_global(&self, key: u64) -> (r: bool)
        ensures
            r == spec_has_global(self@, key),
    {
        self.find_global_from(key, 0).is_some()
    }

    /// Reads the global slot; the caller promises it is set (the
    /// panicking accessor of the store).
    pub fn global(&self, key: u64) -> (r: u64)
        requires
            spec_has_global(self@, key),
        ensures
            r == spec_global_value(self@, key),
    {
        match self.find_global_from(key, 0) {
            Some(i) => self.globals[i].1,
            None => 0,
        }
    }

    /// Reads the global slot, soft: absence comes back as `None`.
    pub fn try_global(&self, key: u64) -> (r: Option<u64>)
        ensures
            r is Some <==> spec_has_global(self@, key),
            r is Some ==> r.unwrap() == spec_global_value(self@, key),
    {
        match self.find_global_from(key, 0) {
            Some(i) => Some(self.globals[i].1),
            None => None,
        }
    }

    /// Writes the global slot: last write wins, an absent slot is created.
    /// No notification fires: subscriptions, their logs and the delivery
    /// trace stay exactly as they were.
    pub fn set_global(&mut self, key: u64, v: u64)
        ensures
            final(self)@ == spec_set_global(old(self)@, key, v),
    {
        match self.find_global_from(key, 0) {
            Some(i) => {
                let slot = &mut self.globals[i];
                *slot = (key, v);
            },
            None => {
                self.globals.push((key, v));
            },
        }
        proof {
            assert(self@ =~= spec_set_global(old(self)@, key, v));
        }
    }

    /// Drops the global slot, if it was set.
    pub fn remove_global(&mut self, key: u64)
        ensures
            final(self)@ == spec_remove_global(old(self)@, key),
    {
        match self.find_global_from(key, 0) {
            Some(i) => {
                self.globals.remove(i);
            },
            None => {},
        }
        proof {
            assert(self@ =~= spec_remove_global(old(self)@, key));
        }
    }

    /// Mutates the global slot in place, default-constructing (zero) when
    /// it is absent, and returns the value it left behind. Fires no
    /// notification.
    pub fn update_global(&mut self, key: u64, op: GlobalOp) -> (r: u64)
        ensures
            final(self)@ == spec_update_global(old(self)@, key, op).0,
            r == spec_update_global(old(self)@, key, op).1,
    {
        let cur = match self.find_global_from(key, 0) {
            Some(i) => self.globals[i].1,
            None => 0,
        };
        let v = match op {
            GlobalOp::Assign { value } => value,
            GlobalOp::Add { delta } => cur.wrapping_add(delta),
        };
        self.set_global(key, v);
        v
    }

    // -- windows --------------------------------------------------------------

    /// Opens a window with the given root value and returns its handle.
    pub fn open_window(&mut self, initial: u64) -> (h: AnyWindowHandle)
        ensures
            final(self)@ == spec_open_window(old(self)@, initial),
            h.id == old(self)@.windows.len(),
    {
        let id = self.windows.len();
        self.windows.push(Window { value: initial, dirty: false });
        proof {
            assert(self@ =~= spec_open_window(old(self)@, initial));
        }
        AnyWindowHandle { id }
    }

    /// Reads a window's root value; fails softly on an unknown id.
    pub fn read_window(&self, handle: AnyWindowHandle) -> (r: Result<u64, StoreError>)
        ensures
            r is Ok <==> self@.alive && handle.id < self@.windows.len(),
            r is Ok ==> r.unwrap() == self@.windows[handle.id as int].value,
            r is Err ==> r == Result::<u64, StoreError>::Err(StoreError::Stale),
    {
        if self.alive && handle.id < self.windows.len() {
            Ok(self.windows[handle.id].value)
        } else {
            Err(StoreError::Stale)
        }
    }

    /// Updates a window's root value under the same scoped-access contract
    /// as entities, and marks it as needing a redraw; fails softly on an
    /// unknown id.
    pub fn update_window(&mut self, handle: AnyWindowHandle, v: u64) -> (r: Result<
        u64,
        StoreError,
    >)
        ensures
            r is Ok <==> old(self)@.alive && handle.id < old(self)@.windows.len(),
            r is Ok ==> final(self)@ == spec_update_window(old(self)@, handle.id, v) && r.unwrap()
                == v,
            r is Err ==> final(self)@ == old(self)@ && r == Result::<u64, StoreError>::Err(
                StoreError::Stale,
            ),
    {
        if self.alive && handle.id < self.windows.len() {
            let slot = &mut self.windows[handle.id];
            *slot = Window { value: v, dirty: true };
            proof {
                assert(self@ =~= spec_update_window(old(self)@, handle.id, v));
            }
            Ok(v)
        } else {
            Err(StoreError::Stale)
        }
    }

    fn refresh_from(&mut self, i: usize)
        requires
            i <= self@.windows.len(),
        ensures
            final(self)@ == spec_refresh_from(old(self)@, i as int),
        decreases self@.windows.len() - i,
    {
        if i < self.windows.len() {
            let v = self.windows[i].value;
            let slot = &mut self.windows[i];
            *slot = Window { value: v, dirty: true };
            proof {
                assert(self@ =~= AppModel {
                    windows: old(self)@.windows.update(
                        i as int,
                        Window { value: old(self)@.windows[i as int].value, dirty: true },
                    ),
                    ..old(self)@
                });
            }
            self.refresh_from(i + 1);
        }
    }

    /// Marks every window as needing a redraw.
    pub fn refresh(&mut self)
        ensures
            final(self)@ == spec_refresh_from(old(self)@, 0),
    {
        self.refresh_from(0);
    }

    fn clear_from(&mut self, i: usize)
        requires
            i <= self@.entities.len(),
        ensures
            final(self)@ == spec_clear_from(old(self)@, i as int),
        decreases self@.entities.len() - i,
    {
        if i < self.entities.len() {
            let slot = &mut self.entities[i];
            *slot = None;
            proof {
                assert(self@.entities =~= old(self)@.entities.update(i as int, None));
                assert(self@ =~= AppModel {
                    entities: old(self)@.entities.update(i as int, None),
                    ..old(self)@
                });
            }
            self.clear_from(i + 1);
        }
    }

    /// Tears the application down: no handle resolves afterwards, every
    /// entity and global slot is released. Subscription logs stay
    /// readable, so tests can still inspect what was delivered.
    pub fn quit(&mut self)
        ensures
            final(self)@ == spec_quit(old(self)@),
            !final(self)@.alive,
    {
        self.clear_from(0);
        self.alive = false;
        self.globals = Vec::new();
        proof {
            assert(self@ =~= spec_quit(old(self)@));
        }
    }
}

fn copy_ids(v: &Vec<usize>) -> (r: Vec<usize>)
    ensures
        r@ == v@,
{
    let mut r: Vec<usize> = Vec::new();
    let mut i: usize = 0;
    while i < v.len()
        invariant
            i <= v@.len(),
            r@ == v@.take(i as int),
        decreases v@.len() - i,
    {
        r.push(v[i]);
        proof {
            assert(r@ =~= v@.take(i as int + 1));
        }
        i = i + 1;
    }
    proof {
        assert(r@ =~= v@);
    }
    r
}

} // verus!
