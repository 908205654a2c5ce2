//! An entity-component runtime: identified entities carry type-erased
//! components in named categories, a world keeps the list of its entities,
//! and an event-handler component forwards window events to a pluggable
//! handler.
//!
//! The structure-changing logic lives in types that are used through `&mut`
//! and have exact contracts: [`store::Components`] (the categories of one
//! entity), the list functions of [`world`], and the identifier rendering of
//! [`ident`]. The shared handles ([`World`], [`Entity`], [`EventHandler`])
//! take a lock and apply that logic to whatever the lock holds.

pub mod component;
pub mod entity;
pub mod event_handler;
pub mod ident;
pub mod scene;
pub mod store;
pub mod sync;
pub mod world;

pub use component::{Component, Handle, TypeKey, Typed};
pub use entity::{Entity, WorldLink};
pub use event_handler::{EventHandler, Handler, EVENT_HANDLER_ID};
pub use ident::IdGenerator;
pub use scene::Scene;
pub use store::Components;
pub use world::World;
