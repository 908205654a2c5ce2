//! The world: the list of its entities.
//!
//! The list stands behind a lock. Each operation of [`World`] takes the lock
//! and applies one of the list functions of this module to what the lock
//! holds; the contracts of those functions say what happens to the list.

use crate::entity::linked_world;
use crate::entity::Entity;
use crate::store::Components;
use crate::sync::guarded;
use crate::sync::lock;
use crate::sync::new_mutex;
use std::ops::Deref;
use std::sync::Arc;
use std::sync::Mutex;
use vstd::multiset::Multiset;
use vstd::prelude::*;

verus! {

/// The entities of `list` whose identifier is not `id`, in their order.
pub open spec fn without_id(list: Seq<Arc<Entity>>, id: Seq<char>) -> Seq<Arc<Entity>> {
    list.filter(|entity: Arc<Entity>| entity.id@ != id)
}

/// The entities of `list` whose identifier is `id`, in their order.
pub open spec fn with_id(list: Seq<Arc<Entity>>, id: Seq<char>) -> Seq<Arc<Entity>> {
    list.filter(|entity: Arc<Entity>| entity.id@ == id)
}

/// `without_id` of a list with one more entity at its end.
pub proof fn lemma_without_id_push(list: Seq<Arc<Entity>>, entity: Arc<Entity>, id: Seq<char>)
    ensures
        without_id(list.push(entity), id) == if entity.id@ != id {
            without_id(list, id).push(entity)
        } else {
            without_id(list, id)
        },
{
    reveal(Seq::filter);
    assert(list.push(entity).drop_last() =~= list);
}

/// A removal by identifier takes away every entity with that identifier and
/// no other: an entity with another identifier occurs as often as before.
pub proof fn law_removal_is_exact(list: Seq<Arc<Entity>>, id: Seq<char>, entity: Arc<Entity>)
    ensures
        without_id(list, id).to_multiset().count(entity) == if entity.id@ != id {
            list.to_multiset().count(entity)
        } else {
            0
        },
    decreases list.len(),
{
    broadcast use vstd::multiset::group_multiset_axioms;

    if list.len() == 0 {
        reveal(Seq::filter);
        assert(list.to_multiset() =~= Multiset::<Arc<Entity>>::empty()) by {
            list.to_multiset_ensures();
            vstd::multiset::lemma_multiset_empty_len(list.to_multiset());
        }
        assert(without_id(list, id) =~= Seq::<Arc<Entity>>::empty());
    } else {
        let shorter = list.drop_last();
        let last = list.last();
        law_removal_is_exact(shorter, id, entity);
        assert(list =~= shorter.push(last));
        lemma_without_id_push(shorter, last, id);
        vstd::seq_lib::to_multiset_build(shorter, last);
        if last.id@ != id {
            vstd::seq_lib::to_multiset_build(without_id(shorter, id), last);
        }
    }
}

/// Removing an identifier a second time changes nothing.
pub proof fn law_removal_is_idempotent(list: Seq<Arc<Entity>>, id: Seq<char>)
    ensures
        without_id(without_id(list, id), id) == without_id(list, id),
    decreases list.len(),
{
    if list.len() == 0 {
        reveal(Seq::filter);
        assert(without_id(list, id) =~= Seq::<Arc<Entity>>::empty());
    } else {
        let shorter = list.drop_last();
        let last = list.last();
        law_removal_is_idempotent(shorter, id);
        assert(list =~= shorter.push(last));
        lemma_without_id_push(shorter, last, id);
        if last.id@ != id {
            lemma_without_id_push(without_id(shorter, id), last, id);
        }
    }
}

/// A removal by identifier shortens the list by the number of entities that
/// have that identifier.
pub proof fn law_removal_shrinks_by_matches(list: Seq<Arc<Entity>>, id: Seq<char>)
    ensures
        without_id(list, id).len() + with_id(list, id).len() == list.len(),
    decreases list.len(),
{
    reveal(Seq::filter);
    if list.len() > 0 {
        law_removal_shrinks_by_matches(list.drop_last(), id);
    }
}

/// Puts `entity` at the end of `list`.
pub fn append(list: &mut Vec<Arc<Entity>>, entity: Arc<Entity>)
    ensures
        final(list)@ == old(list)@.push(entity),
{
    list.push(entity);
}

/// Removes from `list` every entity whose identifier is `id`, and keeps the
/// others in their order. Identifiers are compared by their text.
pub fn remove_with_id(list: &mut Vec<Arc<Entity>>, id: &String)
    ensures
        final(list)@ == without_id(old(list)@, id@),
{
    let mut rest: Vec<Arc<Entity>> = Vec::new();
    let mut i: usize = 0;
    while i < list.len()
        invariant
            i <= list@.len(),
            rest@ == without_id(list@.subrange(0, i as int), id@),
        decreases list@.len() - i,
    {
        proof {
            let shorter = list@.subrange(0, i as int);
            let longer = list@.subrange(0, i + 1);
            assert(longer.drop_last() =~= shorter);
            reveal(Seq::filter);
        }
        if *list[i].id != *id {
            rest.push(list[i].clone());
        }
        i = i + 1;
    }
    proof {
        assert(list@.subrange(0, i as int) =~= list@);
    }
    *list = rest;
}

/// The registry of entities that all parts of a program share.
pub struct World {
    /// The entities of this world, in the order of their creation.
    pub entities: Mutex<Vec<Arc<Entity>>>,
}

impl World {
    /// A world without entities.
    pub fn new() -> Arc<World> {
        Arc::new(World { entities: new_mutex(Vec::new()) })
    }

    /// Makes an entity with the given identifier and components, appends it
    /// to the list of this world ([`append`] on what the lock holds), and
    /// returns it. The entity is in the list when the call returns.
    pub fn create(self: Arc<Self>, id: Arc<String>, components: Components) -> (r: Arc<Entity>)
        ensures
            r.id == id,
            linked_world(r.world) == *self,
    {
        let entity = Entity::new(id, &self, components);
        let mut guard = lock(&self.entities);
        let list = guarded(&mut guard);
        append(list, entity.clone());
        entity
    }

    /// Makes an entity with the given identifier and no components. Unlike
    /// [`World::create`], it does not put the entity into the list of this
    /// world: the entity knows its world, but the world neither lists nor
    /// removes it.
    pub fn create_default(self: Arc<Self>, id: Arc<String>) -> (r: Arc<Entity>)
        ensures
            r.id == id,
            linked_world(r.world) == *self,
    {
        Entity::new(id, &self, Components::new())
    }

    /// Removes every entity that has the identifier of `entity`.
    pub fn remove<T: Deref<Target = Entity>>(&self, entity: T) {
        self.remove_by_id(entity.id.clone());
    }

    /// Removes every entity whose identifier is `id`: [`remove_with_id`] on
    /// what the lock holds.
    pub fn remove_by_id(&self, id: Arc<String>) {
        let mut guard = lock(&self.entities);
        let list = guarded(&mut guard);
        remove_with_id(list, &id);
    }

    /// The lock that guards the list of entities. A caller that walks the
    /// list holds the lock for as long as the walk takes.
    pub fn entities(&self) -> (r: &Mutex<Vec<Arc<Entity>>>)
        ensures
            *r == self.entities,
    {
        &self.entities
    }
}

} // verus!
