//! The event-handler component: it lets a pluggable handler receive the
//! window events that are delivered to the entity it is attached to.

use crate::component::Component;
use crate::entity::Entity;
use crate::sync::new_rwlock;
use crate::sync::read_guarded;
use crate::sync::read_lock;
use crate::sync::write_guarded;
use crate::sync::write_lock;
use std::sync::Arc;
use std::sync::RwLock;
use vstd::prelude::*;
use winit::event::Event;

verus! {

/// `winit::event::Event`, carried through to the handler as an opaque value.
#[verifier::external_type_specification]
#[verifier::external_body]
#[verifier::reject_recursive_types(T)]
pub struct ExEvent<'a, T: 'static>(Event<'a, T>);

/// The key of the category that event handlers belong to.
pub const EVENT_HANDLER_ID: &'static str = "event handler";

/// What reacts to the events that an [`EventHandler`] receives.
pub trait Handler: Send + Sync {
    /// Called once by [`EventHandler::new`] with the component that wraps
    /// this handler, so that the handler can keep a reference to it. A
    /// handler that needs none keeps this empty body.
    fn set_event_handler(&self, _event_handler: Option<Arc<EventHandler>>) {
    }

    /// Reacts to one event. It runs on the path that delivers events and
    /// has to return promptly.
    fn handle<'a>(&self, event: &Event<'a, ()>);
}

/// The place of the handler that is installed at the moment: a read/write
/// lock around a shared `dyn Handler`. The verifier sees no field of it,
/// because [`Handler`] names [`EventHandler`] and a field of this type in
/// [`EventHandler`] would close a circle of definitions.
#[verifier::external_body]
pub struct HandlerSlot {
    inner: RwLock<Arc<dyn Handler>>,
}

impl HandlerSlot {
    /// `RwLock::new` around one more reference to `handler`. Nothing is
    /// claimed of the result.
    #[verifier::external_body]
    pub(crate) fn new(handler: &Arc<dyn Handler>) -> HandlerSlot {
        HandlerSlot { inner: RwLock::new(handler.clone()) }
    }

    /// The lock of the slot. Nothing is claimed of it.
    #[verifier::external_body]
    pub(crate) fn lock(&self) -> &RwLock<Arc<dyn Handler>> {
        &self.inner
    }
}

/// A component that forwards events to a handler, which can be exchanged
/// while the component is in use.
pub struct EventHandler {
    /// The identifier of this component.
    pub id: Arc<String>,
    /// The key of the category of this component: [`EVENT_HANDLER_ID`].
    pub tid: Arc<String>,
    /// The entity that this component is attached to, if any.
    pub entity: Arc<RwLock<Option<Arc<Entity>>>>,
    /// The handler that is installed at the moment.
    pub handler: Arc<HandlerSlot>,
}

impl EventHandler {
    /// A component with the given identifier that forwards to `handler` and
    /// is attached to no entity. When the component is complete and shared,
    /// `handler` is told of it through [`Handler::set_event_handler`].
    pub fn new(id: Arc<String>, handler: Arc<dyn Handler>) -> (r: Arc<Self>)
        ensures
            r.id == id,
            r.tid@ == EVENT_HANDLER_ID@,
    {
        let event_handler = Arc::new(
            EventHandler {
                id,
                tid: Arc::new(String::from_str(EVENT_HANDLER_ID)),
                entity: Arc::new(new_rwlock(None)),
                handler: Arc::new(HandlerSlot::new(&handler)),
            },
        );
        handler.set_event_handler(Some(event_handler.clone()));
        event_handler
    }

    /// Forwards `event` to the handler that is installed at the moment. The
    /// slot is held for reading while the handler runs, so the handler is
    /// not exchanged under a delivery.
    pub fn handle<'a>(&self, event: &Event<'a, ()>) {
        let guard = read_lock(self.handler.lock());
        let handler = read_guarded(&guard);
        handler.handle(event);
    }

    /// Installs `handler` in place of the current one. The exchange waits
    /// for the deliveries that are under way.
    pub fn set_handler(&self, handler: Arc<dyn Handler>) {
        let mut incoming = handler;
        let mut guard = write_lock(self.handler.lock());
        let place = write_guarded(&mut guard);
        std::mem::swap(place, &mut incoming);
    }

    /// The entity that this component is attached to at the moment, if any.
    pub fn entity(&self) -> Option<Arc<Entity>> {
        let guard = read_lock(&self.entity);
        let entity = read_guarded(&guard);
        entity.clone()
    }

    /// Attaches this component to `entity`, or to none.
    pub fn set_entity(&self, entity: Option<Arc<Entity>>) {
        let mut guard = write_lock(&self.entity);
        let place = write_guarded(&mut guard);
        *place = entity;
    }
}

impl Component for EventHandler {
    fn category(&self) -> (r: Arc<String>)
        ensures
            r == self.tid,
    {
        self.tid.clone()
    }
}

} // verus!
