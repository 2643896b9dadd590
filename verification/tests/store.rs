use gosub_engine::js::runtime::Runtime;
use gosub_engine::js::v8::compile::V8Compiled;
use gosub_engine::js::v8::context::V8Context;
use gosub_engine::js::v8::context_store::{Inner, Store};
use gosub_engine::js::v8::object::V8Object;
use gosub_engine::js::v8::{InitAction, PlatformState, V8Engine};
use gosub_engine::js::JSType;

#[test]
fn store_hands_out_what_was_stored() {
    let mut store: Store<String, u32, u64> = Store::new();
    assert!(store.get_isolate(1).is_none());
    *store.isolate(1, "iso".to_string()) += "late";
    assert_eq!(store.get_isolate(1).unwrap(), "isolate");
    // A second isolate under the same id: the first one is still what is handed out.
    assert_eq!(store.isolate(1, "other".to_string()), "isolate");
    assert_eq!(*store.handle_scope(2, 20), 20);
    assert_eq!(*store.context_scope(2, 200), 200);
    assert!(store.get_handle_scope(1).is_none());
    assert_eq!(*store.get_context_scope(2).unwrap(), 200);
}

#[test]
fn drop_removes_unused_entries() {
    let mut store: Store<u8, u8, u8> = Store::new();
    store.insert_isolate(7, 1);
    store.insert_handle_scope(7, 2);
    store.insert_context_scope(7, 3);
    store.insert_isolate(8, 4);
    store.drop(7);
    assert!(store.get_isolate(7).is_none());
    assert!(store.get_handle_scope(7).is_none());
    assert!(store.get_context_scope(7).is_none());
    assert_eq!(*store.get_isolate(8).unwrap(), 4);
}

#[test]
fn drop_keeps_entries_in_use() {
    let mut store: Store<u8, u8, u8> = Store::new();
    store.insert_isolate(7, 1);
    store.insert_handle_scope(7, 2);
    store.insert_context_scope(7, 3);
    store.raise_context_scope_count(7);
    store.drop(7);
    assert_eq!(*store.get_isolate(7).unwrap(), 1);
    assert_eq!(*store.get_handle_scope(7).unwrap(), 2);
    assert_eq!(*store.get_context_scope(7).unwrap(), 3);
    store.lower_context_scope_count(7);
    store.drop(7);
    assert!(store.get_context_scope(7).is_none());
    assert!(store.get_isolate(7).is_none());
}

#[test]
fn counts_of_missing_entries_change_nothing() {
    let mut store: Store<u8, u8, u8> = Store::new();
    store.raise_context_scope_count(3);
    store.lower_context_scope_count(3);
    store.lower_handle_scope_count(3);
    store.lower_isolate_count(3);
    store.drop(3);
    assert!(store.get_isolate(3).is_none());
}

#[test]
fn handle_and_isolate_counts_only_go_down() {
    let mut store: Store<u8, u8, u8> = Store::new();
    store.insert_handle_scope(5, 1);
    store.insert_isolate(5, 1);
    store.raise_context_scope_count(5);
    store.drop(5);
    assert!(store.get_handle_scope(5).is_none());
}

#[test]
fn inner_starts_unused() {
    let inner = Inner::new(4, "data");
    assert_eq!(inner.id, 4);
    assert_eq!(inner.ref_count, 0);
    assert!(!inner.drop_next);
    assert_eq!(inner.data, "data");
}

#[test]
fn context_lives_in_the_store() {
    let mut store: Store<u8, u16, u32> = Store::new();
    let ctx = V8Context::new(&mut store, 1, 2, 3);
    let id = ctx.id();
    assert_eq!(*store.get_isolate(id).unwrap(), 1);
    assert_eq!(*store.get_handle_scope(id).unwrap(), 2);
    // The scope's use ends with one reference fewer on it, so one is recorded first.
    store.raise_context_scope_count(id);
    store.raise_context_scope_count(id);
    *ctx.scope(&mut store) += 4;
    assert_eq!(*store.get_context_scope(id).unwrap(), 7);
    *ctx.scope(&mut store) += 1;
    assert_eq!(*store.get_context_scope(id).unwrap(), 8);
    ctx.drop(&mut store);
    assert!(store.get_isolate(id).is_none());
    assert!(store.get_context_scope(id).is_none());
}

#[test]
fn platform_is_initialised_once() {
    let mut s = PlatformState::new();
    assert_eq!(s.initialize_action(), InitAction::Initialize);
    s.begin_initialize();
    assert_eq!(s.initialize_action(), InitAction::WaitForOther);
    s.finish_initialize();
    assert_eq!(s.initialize_action(), InitAction::AlreadyInitialized);
    s.begin_initialize();
    assert_eq!(s.initialize_action(), InitAction::AlreadyInitialized);
}

#[test]
fn engine_and_wrappers() {
    let _engine = V8Engine::new();
    let _runtime = Runtime::<V8Engine>::new();
    let o = V8Object::from(12u8);
    assert_eq!(o.0, 12);
    let c = V8Compiled::from_ctx(1u8, "script");
    assert_eq!(c.context, 1);
    assert_eq!(c.compiled, "script");
    assert!(JSType::Number == JSType::Number);
    assert!(JSType::Null != JSType::Undefined);
}

#[test]
fn scope_use_lowers_the_count() {
    let mut store: Store<u8, u8, u8> = Store::new();
    let ctx = V8Context::new(&mut store, 1, 2, 3);
    let id = ctx.id();
    store.raise_context_scope_count(id);
    store.raise_context_scope_count(id);
    *ctx.scope(&mut store) += 1;
    // One reference is still recorded, so dropping the context keeps its parts.
    ctx.drop(&mut store);
    assert_eq!(*store.get_context_scope(id).unwrap(), 4);
    assert_eq!(*store.get_isolate(id).unwrap(), 1);
}
