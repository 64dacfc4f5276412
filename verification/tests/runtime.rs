//! Entity store behaviour: builds, updates, notifications, subscription
//! guards, handle lifetimes and re-entrancy.

use entity_runtime::context::TestAppContext;
use entity_runtime::executor::TestDispatcher;
use entity_runtime::store::{Delivery, StoreError, UpdateStep};

fn fresh() -> TestAppContext {
    TestAppContext::new(TestDispatcher::new(0))
}

#[test]
fn build_then_read_and_update() {
    let mut cx = fresh();
    let e = cx.build_model(0);
    assert_eq!(cx.app.read_model(&e), 0);
    let r = cx.update_model(&e, &vec![UpdateStep::Assign { value: 5 }]);
    assert_eq!(r, Ok(5));
    assert_eq!(cx.app.read_model(&e), 5);
}

#[test]
fn observer_sees_each_increment() {
    // Build entity E with value 0, subscribe observer O, increment twice:
    // O fires exactly twice, each time after the increment is visible.
    let mut cx = fresh();
    let e = cx.build_model(0);
    let o = cx.observe(&e);
    assert_eq!(cx.update_model(&e, &vec![UpdateStep::Add { delta: 1 }]), Ok(1));
    assert_eq!(cx.app.read_model(&e), 1);
    assert_eq!(cx.deliveries(&o), &vec![Delivery::Changed { value: 1 }]);
    assert_eq!(cx.update_model(&e, &vec![UpdateStep::Add { delta: 1 }]), Ok(2));
    assert_eq!(cx.app.read_model(&e), 2);
    assert_eq!(
        cx.deliveries(&o),
        &vec![Delivery::Changed { value: 1 }, Delivery::Changed { value: 2 }]
    );
}

#[test]
fn observers_notified_in_registration_order() {
    let mut cx = fresh();
    let e = cx.build_model(0);
    let first = cx.observe(&e);
    let second = cx.observe(&e);
    assert_eq!(cx.update_model(&e, &vec![UpdateStep::Assign { value: 3 }]), Ok(3));
    let trace = cx.app.delivered();
    assert_eq!(
        trace,
        &vec![
            (first.id, Delivery::Changed { value: 3 }),
            (second.id, Delivery::Changed { value: 3 }),
        ]
    );
}

#[test]
fn observer_registered_after_update_sees_only_later_ones() {
    let mut cx = fresh();
    let e = cx.build_model(0);
    assert_eq!(cx.update_model(&e, &vec![UpdateStep::Add { delta: 1 }]), Ok(1));
    let late = cx.observe(&e);
    assert_eq!(cx.deliveries(&late).len(), 0);
    assert_eq!(cx.update_model(&e, &vec![UpdateStep::Add { delta: 1 }]), Ok(2));
    assert_eq!(cx.deliveries(&late), &vec![Delivery::Changed { value: 2 }]);
}

#[test]
fn dropped_subscription_receives_nothing_more() {
    let mut cx = fresh();
    let e = cx.build_model(0);
    let o = cx.observe(&e);
    assert_eq!(cx.update_model(&e, &vec![UpdateStep::Add { delta: 1 }]), Ok(1));
    let sid = cx.cancel_subscription(o);
    assert_eq!(cx.update_model(&e, &vec![UpdateStep::Add { delta: 1 }]), Ok(2));
    assert_eq!(cx.update_model(&e, &vec![UpdateStep::Add { delta: 1 }]), Ok(3));
    let guard = entity_runtime::store::Subscription { id: sid };
    assert!(!cx.app.is_active(&guard));
    assert_eq!(cx.app.deliveries(&guard), &vec![Delivery::Changed { value: 1 }]);
}

#[test]
fn handle_resolves_until_last_strong_drop() {
    let mut cx = fresh();
    let e = cx.build_model(10);
    let e2 = cx.app.clone_model(&e);
    let weak = cx.app.downgrade(&e);
    let released_first = cx.app.drop_model(e2);
    assert!(!released_first);
    assert_eq!(cx.update_model(&e, &vec![UpdateStep::Add { delta: 1 }]), Ok(11));
    let id = e.id;
    let released_last = cx.app.drop_model(e);
    assert!(released_last);
    let stale = entity_runtime::store::Model { id };
    assert_eq!(
        cx.update_model(&stale, &vec![UpdateStep::Add { delta: 1 }]),
        Err(StoreError::Stale)
    );
    assert!(cx.app.upgrade(&weak).is_none());
}

#[test]
fn weak_handle_upgrades_while_live() {
    let mut cx = fresh();
    let e = cx.build_model(4);
    let weak = cx.app.downgrade(&e);
    let strong = cx.app.upgrade(&weak).expect("entity is live");
    assert_eq!(strong.id, e.id);
    assert_eq!(cx.app.read_model(&strong), 4);
    // Both strong handles must drop before the slot is released.
    assert!(!cx.app.drop_model(strong));
    assert!(cx.app.drop_model(e));
}

#[test]
fn reentrant_update_fails_without_corruption() {
    let mut cx = fresh();
    let e = cx.build_model(7);
    let o = cx.observe(&e);
    let steps = vec![
        UpdateStep::Assign { value: 9 },
        UpdateStep::Nested { target: e.id, value: 1 },
    ];
    assert_eq!(cx.update_model(&e, &steps), Err(StoreError::Reentrant));
    assert_eq!(cx.app.read_model(&e), 7);
    assert_eq!(cx.deliveries(&o).len(), 0);
}

#[test]
fn nested_update_of_another_entity_notifies_it() {
    let mut cx = fresh();
    let a = cx.build_model(1);
    let b = cx.build_model(2);
    let ob = cx.observe(&b);
    let r = cx.update_model(&a, &vec![UpdateStep::Nested { target: b.id, value: 42 }]);
    assert_eq!(r, Ok(1));
    assert_eq!(cx.app.read_model(&b), 42);
    assert_eq!(cx.deliveries(&ob), &vec![Delivery::Changed { value: 42 }]);
}

#[test]
fn nested_update_of_released_entity_is_stale() {
    let mut cx = fresh();
    let a = cx.build_model(1);
    let b = cx.build_model(2);
    let dead = b.id;
    assert!(cx.app.drop_model(b));
    let r = cx.update_model(&a, &vec![UpdateStep::Nested { target: dead, value: 3 }]);
    assert_eq!(r, Err(StoreError::Stale));
    assert_eq!(cx.app.read_model(&a), 1);
}

#[test]
fn emitted_events_reach_listeners_after_the_update() {
    let mut cx = fresh();
    let e = cx.build_model(0);
    let listener = cx.subscribe(&e);
    let observer = cx.observe(&e);
    let steps = vec![
        UpdateStep::Emit { payload: 7 },
        UpdateStep::Emit { payload: 8 },
        UpdateStep::Assign { value: 1 },
    ];
    assert_eq!(cx.update_model(&e, &steps), Ok(1));
    assert_eq!(
        cx.deliveries(&listener),
        &vec![Delivery::Event { payload: 7 }, Delivery::Event { payload: 8 }]
    );
    assert_eq!(cx.deliveries(&observer), &vec![Delivery::Changed { value: 1 }]);
    // Events flush before the changed notification of the same update.
    let trace = cx.app.delivered();
    assert_eq!(
        trace,
        &vec![
            (listener.id, Delivery::Event { payload: 7 }),
            (listener.id, Delivery::Event { payload: 8 }),
            (observer.id, Delivery::Changed { value: 1 }),
        ]
    );
}

#[test]
fn wrapping_add_in_updates() {
    let mut cx = fresh();
    let e = cx.build_model(u64::MAX);
    assert_eq!(cx.update_model(&e, &vec![UpdateStep::Add { delta: 2 }]), Ok(1));
}

#[test]
fn update_after_quit_is_stale() {
    let mut cx = fresh();
    let e = cx.build_model(3);
    cx.quit();
    assert_eq!(
        cx.update_model(&e, &vec![UpdateStep::Assign { value: 1 }]),
        Err(StoreError::Stale)
    );
}
