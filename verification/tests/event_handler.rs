use std::sync::atomic::{AtomicUsize, Ordering};
use std::sync::{Arc, Mutex};
use std::time::{Duration, Instant};
use wecs::{Component, Components, EventHandler, Handler, World, EVENT_HANDLER_ID};
use winit::event::{Event, StartCause};

struct Counting {
    count: AtomicUsize,
    delays: Mutex<Vec<Duration>>,
}

impl Counting {
    fn new() -> Arc<Counting> {
        Arc::new(Counting { count: AtomicUsize::new(0), delays: Mutex::new(Vec::new()) })
    }
}

impl Handler for Counting {
    fn handle<'a>(&self, event: &Event<'a, ()>) {
        self.count.fetch_add(1, Ordering::SeqCst);
        if let Event::NewEvents(StartCause::ResumeTimeReached { start, requested_resume }) = event {
            self.delays.lock().unwrap().push(*requested_resume - *start);
        }
    }
}

struct Remembering {
    wrapper: Mutex<Option<Arc<EventHandler>>>,
    calls: AtomicUsize,
}

impl Handler for Remembering {
    fn set_event_handler(&self, event_handler: Option<Arc<EventHandler>>) {
        self.calls.fetch_add(1, Ordering::SeqCst);
        *self.wrapper.lock().unwrap() = event_handler;
    }

    fn handle<'a>(&self, _event: &Event<'a, ()>) {
        let wrapper = self.wrapper.lock().unwrap().clone();
        if let Some(wrapper) = wrapper {
            wrapper.set_entity(None);
        }
    }
}

fn key(text: &str) -> Arc<String> {
    Arc::new(text.to_string())
}

#[test]
fn the_category_key_is_fixed() {
    assert_eq!(EVENT_HANDLER_ID, "event handler");
}

#[test]
fn new_sets_id_and_category() {
    let handler = EventHandler::new(key("input"), Counting::new());
    assert_eq!(*handler.id, "input");
    assert_eq!(*handler.tid, "event handler");
    assert_eq!(*handler.category(), "event handler");
    assert!(handler.entity().is_none());
}

#[test]
fn new_tells_the_handler_of_its_wrapper() {
    let inner = Arc::new(Remembering { wrapper: Mutex::new(None), calls: AtomicUsize::new(0) });
    let handler = EventHandler::new(key("input"), inner.clone());
    assert_eq!(inner.calls.load(Ordering::SeqCst), 1);
    let kept = inner.wrapper.lock().unwrap().clone();
    assert!(Arc::ptr_eq(&kept.unwrap(), &handler));
    *inner.wrapper.lock().unwrap() = None;
}

#[test]
fn the_default_hook_does_nothing() {
    let inner = Counting::new();
    let handler = EventHandler::new(key("input"), inner.clone());
    assert_eq!(inner.count.load(Ordering::SeqCst), 0);
    assert_eq!(Arc::strong_count(&handler), 1);
}

#[test]
fn scenario_fifty_events_are_counted_once_each() {
    let inner = Counting::new();
    let handler = EventHandler::new(key("input"), inner.clone());
    let start = Instant::now();
    for step in 0..50u64 {
        let deliverer = handler.clone();
        let event: Event<'static, ()> = Event::NewEvents(StartCause::ResumeTimeReached {
            start,
            requested_resume: start + Duration::from_millis(step),
        });
        deliverer.handle(&event);
    }
    assert_eq!(inner.count.load(Ordering::SeqCst), 50);
    let mut delays = inner.delays.lock().unwrap().clone();
    delays.sort();
    let expected: Vec<Duration> = (0..50u64).map(Duration::from_millis).collect();
    assert_eq!(delays, expected);
}

#[test]
fn every_kind_of_event_is_forwarded() {
    let inner = Counting::new();
    let handler = EventHandler::new(key("input"), inner.clone());
    handler.handle(&Event::NewEvents(StartCause::Init));
    handler.handle(&Event::UserEvent(()));
    handler.handle(&Event::Suspended);
    handler.handle(&Event::Resumed);
    handler.handle(&Event::MainEventsCleared);
    handler.handle(&Event::RedrawEventsCleared);
    handler.handle(&Event::LoopDestroyed);
    assert_eq!(inner.count.load(Ordering::SeqCst), 7);
}

#[test]
fn set_handler_exchanges_the_receiver() {
    let first = Counting::new();
    let second = Counting::new();
    let handler = EventHandler::new(key("input"), first.clone());
    handler.handle(&Event::Resumed);
    handler.set_handler(second.clone());
    handler.handle(&Event::Resumed);
    handler.handle(&Event::Suspended);
    assert_eq!(first.count.load(Ordering::SeqCst), 1);
    assert_eq!(second.count.load(Ordering::SeqCst), 2);
}

#[test]
fn the_entity_reference_can_be_set_and_cleared() {
    let world = World::new();
    let entity = world.clone().create(key("e"), Components::new());
    let handler = EventHandler::new(key("input"), Counting::new());
    handler.set_entity(Some(entity.clone()));
    assert!(Arc::ptr_eq(&handler.entity().unwrap(), &entity));
    handler.set_entity(None);
    assert!(handler.entity().is_none());
}

#[test]
fn a_handler_can_reach_its_wrapper_during_delivery() {
    let world = World::new();
    let entity = world.clone().create(key("e"), Components::new());
    let inner = Arc::new(Remembering { wrapper: Mutex::new(None), calls: AtomicUsize::new(0) });
    let handler = EventHandler::new(key("input"), inner.clone());
    handler.set_entity(Some(entity));
    handler.handle(&Event::Resumed);
    assert!(handler.entity().is_none());
    *inner.wrapper.lock().unwrap() = None;
}

#[test]
fn an_event_handler_is_found_as_a_component() {
    let world = World::new();
    let entity = world.clone().create(key("e"), Components::new());
    let inner = Counting::new();
    let handler = EventHandler::new(key("input"), inner.clone());
    entity.add_component(handler.category(), handler.clone());
    handler.set_entity(Some(entity.clone()));
    for listed in world.entities().lock().unwrap().iter() {
        for found in listed.get_type::<EventHandler>(key(EVENT_HANDLER_ID)) {
            found.handle(&Event::MainEventsCleared);
        }
    }
    assert_eq!(inner.count.load(Ordering::SeqCst), 1);
    assert!(entity.get_type::<EventHandler>(key("event handlers")).is_empty());
    handler.set_entity(None);
}
