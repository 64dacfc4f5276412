//! Scheduler behaviour: deterministic replay, background-to-foreground
//! continuations, delays, cancellation, globals, windows and the async
//! context.

use entity_runtime::context::{AppOp, AppResponse, AsyncAppContext, TestAppContext};
use entity_runtime::executor::{Completion, Lane, TestDispatcher, Work};
use entity_runtime::settings::{
    decode_settings, encode_settings, ImageFileSizeUnit, ImageViewerSettings,
    IMAGE_VIEWER_SETTINGS_KEY,
};
use entity_runtime::store::{GlobalOp, StoreError, UpdateStep};

fn fresh_with_seed(seed: u64) -> TestAppContext {
    TestAppContext::new(TestDispatcher::new(seed))
}

#[test]
fn background_sum_writes_into_entity() {
    // Spawn a background task computing 2 + 2 whose foreground
    // continuation writes the result into entity E: after the scheduler
    // runs to completion, E reads 4, not 0.
    let mut cx = fresh_with_seed(42);
    let e = cx.build_model(0);
    cx.spawn_background(0, Work::SumThenWrite { a: 2, b: 2, target: e.id });
    cx.run_until_idle();
    assert_eq!(cx.app.read_model(&e), 4);
}

#[test]
fn continuation_notifies_observers() {
    let mut cx = fresh_with_seed(42);
    let e = cx.build_model(0);
    let o = cx.observe(&e);
    cx.spawn_background(0, Work::SumThenWrite { a: 3, b: 4, target: e.id });
    cx.run_until_idle();
    assert_eq!(cx.app.read_model(&e), 7);
    assert_eq!(
        cx.deliveries(&o),
        &vec![entity_runtime::store::Delivery::Changed { value: 7 }]
    );
}

fn replay(seed: u64) -> Vec<Completion> {
    let mut cx = fresh_with_seed(seed);
    let e = cx.build_model(0);
    cx.spawn_background(0, Work::Sum { a: 1, b: 2 });
    cx.spawn_background(3, Work::Value { value: 9 });
    cx.spawn(Work::Value { value: 5 });
    cx.spawn_background(0, Work::SumThenWrite { a: 10, b: 20, target: e.id });
    cx.spawn_background(1, Work::Value { value: 8 });
    cx.dispatcher.advance_clock(5);
    cx.run_until_idle();
    cx.dispatcher.completions().clone()
}

#[test]
fn fixed_seed_replays_identically() {
    // Same seed, same spawned tasks, same simulated delays: the observed
    // completion order is identical across repeated runs.
    let first = replay(7);
    let second = replay(7);
    assert_eq!(first, second);
    assert_eq!(first.len(), 6);
    let third = replay(1234567);
    assert_eq!(third.len(), 6);
}

#[test]
fn foreground_tasks_run_in_submission_order() {
    let mut cx = fresh_with_seed(0);
    let a = cx.spawn(Work::Value { value: 1 });
    let b = cx.spawn(Work::Value { value: 2 });
    cx.run_until_idle();
    let comps = cx.dispatcher.completions();
    assert_eq!(comps.len(), 2);
    assert_eq!(comps[0].task, a.id);
    assert_eq!(comps[1].task, b.id);
    assert_eq!(cx.dispatcher.task_result(&a), Some(1));
    assert_eq!(cx.dispatcher.task_result(&b), Some(2));
}

#[test]
fn delayed_task_waits_for_the_clock() {
    let mut cx = fresh_with_seed(0);
    let t = cx.spawn_background(10, Work::Value { value: 3 });
    cx.run_until_idle();
    assert_eq!(cx.dispatcher.task_result(&t), None);
    cx.dispatcher.advance_clock(9);
    cx.run_until_idle();
    assert_eq!(cx.dispatcher.task_result(&t), None);
    cx.dispatcher.advance_clock(1);
    cx.run_until_idle();
    assert_eq!(cx.dispatcher.task_result(&t), Some(3));
}

#[test]
fn cancelled_task_never_completes() {
    let mut cx = fresh_with_seed(0);
    let t = cx.spawn(Work::Value { value: 5 });
    cx.dispatcher.cancel_task(&t);
    cx.run_until_idle();
    assert_eq!(cx.dispatcher.task_result(&t), None);
    assert_eq!(cx.dispatcher.completions().len(), 0);
}

#[test]
fn unit_preference_global_slot() {
    // The global slot for the unit preference starts unset; reading it
    // softly reports absence; after update_global sets a value the
    // accessors return it; and no subscriber fires for global mutation.
    let mut cx = fresh_with_seed(0);
    let e = cx.build_model(0);
    let _o = cx.observe(&e);
    let key = IMAGE_VIEWER_SETTINGS_KEY;
    assert!(!cx.has_global(key));
    assert_eq!(cx.try_read_global(key), None);
    let wanted = ImageViewerSettings { unit: ImageFileSizeUnit::Decimal };
    let code = encode_settings(&wanted);
    let stored = cx.update_global(key, GlobalOp::Assign { value: code });
    assert_eq!(stored, code);
    assert!(cx.has_global(key));
    assert_eq!(cx.try_read_global(key), Some(code));
    assert_eq!(cx.read_global(key), code);
    assert_eq!(decode_settings(code), wanted);
    assert_eq!(cx.app.delivered().len(), 0);
}

#[test]
fn update_global_default_constructs_when_absent() {
    let mut cx = fresh_with_seed(0);
    // Absent slot: the default-constructed value (zero) is mutated.
    assert_eq!(cx.update_global(77, GlobalOp::Add { delta: 5 }), 5);
    assert_eq!(cx.update_global(77, GlobalOp::Add { delta: 5 }), 10);
}

#[test]
fn set_and_remove_global_through_update() {
    let mut cx = fresh_with_seed(0);
    assert_eq!(cx.update(AppOp::SetGlobal { key: 3, value: 30 }), AppResponse::Done);
    assert_eq!(cx.try_read_global(3), Some(30));
    assert_eq!(cx.update(AppOp::SetGlobal { key: 3, value: 31 }), AppResponse::Done);
    assert_eq!(cx.try_read_global(3), Some(31));
    assert_eq!(cx.update(AppOp::RemoveGlobal { key: 3 }), AppResponse::Done);
    assert_eq!(cx.try_read_global(3), None);
}

#[test]
fn windows_read_update_refresh() {
    let mut cx = fresh_with_seed(0);
    let handle = match cx.update(AppOp::OpenWindow { initial: 5 }) {
        AppResponse::OpenedWindow { handle } => handle,
        AppResponse::Done => panic!("opening a window must hand back its handle"),
    };
    assert_eq!(cx.read_window(handle), 5);
    assert_eq!(cx.update_window(handle, 9), 9);
    assert_eq!(cx.read_window(handle), 9);
    assert_eq!(cx.refresh(), Ok(()));
    assert_eq!(cx.read_window(handle), 9);
}

#[test]
fn unknown_window_fails_softly_in_the_store() {
    let cx = fresh_with_seed(0);
    let bogus = entity_runtime::store::AnyWindowHandle { id: 3 };
    assert_eq!(cx.app.read_window(bogus), Err(StoreError::Stale));
}

#[test]
fn async_context_works_while_alive() {
    let mut cx = fresh_with_seed(0);
    let e = cx.build_model(1);
    let async_cx: AsyncAppContext = cx.to_async();
    let r = async_cx.update_model(&mut cx.app, &e, &vec![UpdateStep::Assign { value: 6 }]);
    assert_eq!(r, Ok(6));
    let t = async_cx.spawn(&cx.app, &mut cx.dispatcher, Work::Value { value: 1 });
    assert!(t.is_ok());
}

#[test]
fn async_context_fails_after_teardown() {
    let mut cx = fresh_with_seed(0);
    let e = cx.build_model(1);
    let async_cx = cx.to_async();
    cx.quit();
    let r = async_cx.update_model(&mut cx.app, &e, &vec![UpdateStep::Assign { value: 6 }]);
    assert_eq!(r, Err(StoreError::AppReleased));
    let w = async_cx.read_window(&cx.app, entity_runtime::store::AnyWindowHandle { id: 0 });
    assert_eq!(w, Err(StoreError::AppReleased));
    let t = async_cx.spawn(&cx.app, &mut cx.dispatcher, Work::Value { value: 1 });
    assert_eq!(t, Err(StoreError::AppReleased));
    let u = async_cx.update(&mut cx.app, AppOp::SetGlobal { key: 1, value: 1 });
    assert_eq!(u, Err(StoreError::AppReleased));
}

#[test]
fn globals_are_dropped_at_teardown() {
    let mut cx = fresh_with_seed(0);
    cx.update_global(IMAGE_VIEWER_SETTINGS_KEY, GlobalOp::Assign { value: 1 });
    cx.quit();
    assert!(!cx.has_global(IMAGE_VIEWER_SETTINGS_KEY));
}

#[test]
fn settings_round_trip_and_default() {
    let binary = ImageViewerSettings { unit: ImageFileSizeUnit::Binary };
    let decimal = ImageViewerSettings { unit: ImageFileSizeUnit::Decimal };
    assert_eq!(encode_settings(&binary), 0);
    assert_eq!(encode_settings(&decimal), 1);
    assert_eq!(decode_settings(0), binary);
    assert_eq!(decode_settings(1), decimal);
    assert_eq!(decode_settings(99), binary);
    assert_eq!(ImageViewerSettings::default(), binary);
    assert_eq!(ImageFileSizeUnit::default(), ImageFileSizeUnit::Binary);
    let executor_tag = fresh_with_seed(0);
    let _ = executor_tag.executor();
}

#[test]
fn background_choice_is_seeded() {
    // With several ready background tasks the seeded generator picks the
    // order; whatever it picks, the same seed picks it again.
    let mut one = fresh_with_seed(99);
    let mut two = fresh_with_seed(99);
    for cx in [&mut one, &mut two] {
        cx.spawn_background(0, Work::Value { value: 1 });
        cx.spawn_background(0, Work::Value { value: 2 });
        cx.spawn_background(0, Work::Value { value: 3 });
        cx.run_until_idle();
    }
    assert_eq!(one.dispatcher.completions(), two.dispatcher.completions());
    assert_eq!(one.dispatcher.completions().len(), 3);
    let _ = Lane::Background;
}
