//! Entities: an identifier and the components that belong to it.
//!
//! An entity is shared between the world that lists it and every holder of a
//! reference to it. Its components stand behind a lock; each operation takes
//! the lock, applies one operation of [`Components`] to what the lock holds,
//! and releases it. What an operation does to the components is therefore
//! stated in the contract of that operation of [`Components`].

use crate::component::all_of_type;
use crate::component::handles_of;
use crate::component::Component;
use crate::component::Handle;
use crate::component::TypeKey;
use crate::component::Typed;
use crate::store::Components;
use crate::sync::guarded;
use crate::sync::lock;
use crate::sync::new_mutex;
use crate::world::World;
use std::sync::Arc;
use std::sync::Mutex;
use std::sync::Weak;
use vstd::prelude::*;

verus! {

/// A reference to a world that does not keep the world alive. It holds a
/// `Weak<World>`, a type that the verifier has no model of.
#[verifier::external_body]
pub struct WorldLink {
    inner: Weak<World>,
}

/// The world that `link` was made to: what `Weak::upgrade` hands out for as
/// long as that world has an owner.
pub uninterp spec fn linked_world(link: WorldLink) -> World;

impl WorldLink {
    /// `Arc::downgrade`: a link to `world` that does not own it. The link
    /// points to the allocation of `world`.
    #[verifier::external_body]
    pub(crate) fn to(world: &Arc<World>) -> (r: WorldLink)
        ensures
            linked_world(r) == **world,
    {
        WorldLink { inner: Arc::downgrade(world) }
    }

    /// `Weak::upgrade`: the world that the link was made to, unless its last
    /// owner has let go of it. Whether it is still there depends on the other
    /// holders; if it is, it is that world.
    #[verifier::external_body]
    pub(crate) fn world(&self) -> (r: Option<Arc<World>>)
        ensures
            r matches Some(world) ==> *world == linked_world(*self),
    {
        self.inner.upgrade()
    }
}

/// An identified bag of components.
pub struct Entity {
    /// The identifier. Several entities may have the same one.
    pub id: Arc<String>,
    /// The world that made this entity.
    pub world: WorldLink,
    /// The components, behind their lock. A caller that reads or changes
    /// several things in one go takes the lock itself.
    pub components: Mutex<Components>,
}

impl Entity {
    /// An entity with the given identifier and components that belongs to
    /// `world`. The components are taken as they are.
    pub fn new(id: Arc<String>, world: &Arc<World>, components: Components) -> (r: Arc<Entity>)
        ensures
            r.id == id,
            linked_world(r.world) == **world,
    {
        Arc::new(Entity { id, world: WorldLink::to(world), components: new_mutex(components) })
    }

    /// The world that this entity belongs to, or `None` once that world is
    /// gone. The entity does not keep its world alive, so which of the two
    /// it is depends on the other holders of the world.
    pub fn world(&self) -> (r: Option<Arc<World>>)
        ensures
            r matches Some(world) ==> *world == linked_world(self.world),
    {
        self.world.world()
    }

    /// Appends `component` to the collection under `key`, and creates the
    /// category if it is absent: [`Components::add`] on what the lock holds.
    pub fn add_component<T: Component>(&self, key: Arc<String>, component: Arc<T>) {
        let handle = Handle::new(component);
        let mut guard = lock(&self.components);
        let components = guarded(&mut guard);
        components.add(key, handle);
    }

    /// Removes from the collection under `key` every component that
    /// `matches` accepts: [`Components::remove_where`] on what the lock
    /// holds. `matches` runs while the lock is held.
    pub fn remove_component<F: Fn(&Handle) -> bool>(&self, key: Arc<String>, matches: F)
        requires
            forall|handle: &Handle| matches.requires((handle,)),
    {
        let mut guard = lock(&self.components);
        let components = guarded(&mut guard);
        components.remove_where(&key, &matches);
    }

    /// The components under `key` whose concrete type is `T`, as they stand
    /// at the moment of the call: [`Components::get_type`] on what the lock
    /// holds. Later changes of the entity do not reach the result. Whatever
    /// the lock holds, every component of the result was found under a
    /// handle of the one concrete type that a key of `T` carries.
    pub fn get_type<T: Component>(&self, key: Arc<String>) -> (r: Vec<Typed<T>>)
        ensures
            exists|ty: TypeKey<T>| all_of_type(handles_of(r@), #[trigger] ty.id()),
    {
        let ty = TypeKey::<T>::of();
        let mut guard = lock(&self.components);
        let components = guarded(&mut guard);
        let found = components.get_type(&key, &ty);
        assert(all_of_type(handles_of(found@), ty.id()));
        found
    }
}

} // verus!
