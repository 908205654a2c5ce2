//! Components behind a type-erased handle.
//!
//! A component is any value of a type that has the [`Component`] capability.
//! An entity stores it as a [`Handle`], which forgets the concrete type and
//! keeps only the ability to ask for it and to come back to it.

use std::any::Any;
use std::any::TypeId;
use std::marker::PhantomData;
use std::ops::Deref;
use std::sync::Arc;
use vstd::prelude::*;

verus! {

/// The capability of a value that can be attached to an entity: it names the
/// category that it belongs to, and it can be shared between threads.
pub trait Component: Send + Sync + 'static {
    /// The key of the category that this component belongs to.
    fn category(&self) -> Arc<String>;
}

/// `std::any::TypeId`, an opaque value that names a type at run time.
#[verifier::external_type_specification]
#[verifier::external_body]
pub struct ExTypeId(TypeId);

/// A shared component whose concrete type has been erased. The handle is a
/// reference-counted pointer to the component as `dyn Any + Send + Sync`, a
/// type that the verifier has no model of; what is known of a handle is its
/// [`concrete_type`].
#[verifier::external_body]
pub struct Handle {
    inner: Arc<dyn Any + Send + Sync>,
}

/// The concrete type of the component behind `handle`, as `Any::type_id`
/// reports it.
pub uninterp spec fn concrete_type(handle: Handle) -> TypeId;

/// The run-time name of the type `T`. The fields are private and the only
/// way to make a key is [`TypeKey::of`], so every key of `T` that a program
/// holds carries `TypeId::of::<T>()`.
pub struct TypeKey<T> {
    id: TypeId,
    marker: PhantomData<T>,
}

impl<T: Component> TypeKey<T> {
    /// The `TypeId` that this key carries.
    pub closed spec fn id(self) -> TypeId {
        self.id
    }

    /// The key of `T`.
    pub fn of() -> TypeKey<T> {
        type_key::<T>()
    }

    /// The `TypeId` that this key carries.
    pub fn type_id(&self) -> (r: TypeId)
        ensures
            r == self.id(),
    {
        self.id
    }
}

/// `TypeId::of::<T>()`, kept together with `T`. Nothing is claimed of the
/// result here; [`erase`] and [`downcast`] say how it relates to the handles
/// of components of type `T`.
#[verifier::external_body]
pub(crate) fn type_key<T: Component>() -> TypeKey<T> {
    TypeKey { id: TypeId::of::<T>(), marker: PhantomData }
}

/// `TypeId`'s `==`: whether two type ids name the same type.
#[verifier::external_body]
pub(crate) fn same_type(a: &TypeId, b: &TypeId) -> (r: bool)
    ensures
        r == (*a == *b),
{
    a == b
}

/// The unsizing coercion of `Arc<T>` to `Arc<dyn Any + Send + Sync>`: a
/// handle to `component` that has forgotten the type `T`. `Any::type_id`
/// of what it points to is `TypeId::of::<T>()`, which is what `key` carries.
#[verifier::external_body]
pub(crate) fn erase<T: Component>(component: Arc<T>, key: &TypeKey<T>) -> (r: Handle)
    ensures
        concrete_type(r) == key.id(),
{
    Handle { inner: component }
}

/// `Any::type_id` of the component behind `handle`.
#[verifier::external_body]
pub(crate) fn type_of(handle: &Handle) -> (r: TypeId)
    ensures
        r == concrete_type(*handle),
{
    (*handle.inner).type_id()
}

/// `Arc::clone`: one more pointer to the allocation that `handle` points to,
/// so the same component behind it.
#[verifier::external_body]
pub(crate) fn share(handle: &Handle) -> (r: Handle)
    ensures
        r == *handle,
{
    Handle { inner: handle.inner.clone() }
}

/// `Arc::downcast`: the component behind `handle` as a `T`, if that is its
/// concrete type. It succeeds exactly when `Any::type_id` of the component
/// is `TypeId::of::<T>()`, which is what `key` carries.
#[verifier::external_body]
pub(crate) fn downcast<T: Component>(handle: Handle, key: &TypeKey<T>) -> (r: Option<Arc<T>>)
    ensures
        r.is_some() == (concrete_type(handle) == key.id()),
{
    handle.inner.downcast::<T>().ok()
}

/// `Arc::ptr_eq`: whether two pointers share one allocation. Nothing is
/// claimed of the result.
#[verifier::external_body]
pub(crate) fn same_allocation<T>(a: &Arc<T>, b: &Arc<T>) -> bool {
    Arc::ptr_eq(a, b)
}

impl Handle {
    /// The handle of `component`, made with the key of its type: the
    /// handle's concrete type is the one that `key` carries.
    pub fn with_key<T: Component>(component: Arc<T>, key: &TypeKey<T>) -> (r: Handle)
        ensures
            concrete_type(r) == key.id(),
    {
        erase(component, key)
    }

    /// The handle of `component`: [`Handle::with_key`] with the key of `T`.
    pub fn new<T: Component>(component: Arc<T>) -> Handle {
        let key = TypeKey::<T>::of();
        Handle::with_key(component, &key)
    }

    /// The concrete type of the component behind the handle.
    pub fn type_id(&self) -> (r: TypeId)
        ensures
            r == concrete_type(*self),
    {
        type_of(self)
    }

    /// One more handle to the same component.
    pub fn duplicate(&self) -> (r: Handle)
        ensures
            r == *self,
    {
        share(self)
    }

    /// Whether the component behind the handle has the concrete type `wanted`.
    pub fn has_type(&self, wanted: &TypeId) -> (r: bool)
        ensures
            r == (concrete_type(*self) == *wanted),
    {
        let own = type_of(self);
        same_type(&own, wanted)
    }

    /// The component behind the handle as a `T`: `Some` exactly when its
    /// concrete type is the one that `key` carries, `None` for a component
    /// of any other type.
    pub fn downcast_with<T: Component>(&self, key: &TypeKey<T>) -> (r: Option<Arc<T>>)
        ensures
            r.is_some() == (concrete_type(*self) == key.id()),
    {
        downcast::<T>(share(self), key)
    }

    /// The component behind the handle as a `T`, if that is its concrete
    /// type: [`Handle::downcast_with`] with the key of `T`.
    pub fn downcast<T: Component>(&self) -> Option<Arc<T>> {
        let key = TypeKey::<T>::of();
        self.downcast_with(&key)
    }

    /// Whether the handle points to the very component that `component`
    /// points to: the answer of `Arc::ptr_eq` where the handle's concrete
    /// type is the one that `key` carries, and `false` for a handle of any
    /// other type.
    pub fn holds_with<T: Component>(&self, component: &Arc<T>, key: &TypeKey<T>) -> (r: bool)
        ensures
            r ==> concrete_type(*self) == key.id(),
    {
        match self.downcast_with(key) {
            Some(own) => same_allocation(&own, component),
            None => false,
        }
    }

    /// Whether the handle points to the very component that `component`
    /// points to: [`Handle::holds_with`] with the key of `T`.
    pub fn holds<T: Component>(&self, component: &Arc<T>) -> bool {
        let key = TypeKey::<T>::of();
        self.holds_with(component, &key)
    }
}

/// A component that was found by its type: the handle it was found under,
/// and the component itself as a `T`. It dereferences to the component; its
/// own functions are called as `Typed::handle(&found)`, so that they never
/// stand in the way of a method of the component.
pub struct Typed<T> {
    handle: Handle,
    value: Arc<T>,
}

/// The handle that the component `found` was found under.
pub closed spec fn handle_of<T: Component>(found: Typed<T>) -> Handle {
    found.handle
}

/// The shared pointer to the component `found`, as a `T`.
pub closed spec fn value_of<T: Component>(found: Typed<T>) -> Arc<T> {
    found.value
}

/// The handles that the components of `found` were found under.
pub open spec fn handles_of<T: Component>(found: Seq<Typed<T>>) -> Seq<Handle> {
    found.map_values(|one: Typed<T>| handle_of(one))
}

/// Whether every handle of `handles` has the concrete type `wanted`.
pub open spec fn all_of_type(handles: Seq<Handle>, wanted: TypeId) -> bool {
    forall|i: int| 0 <= i < handles.len() ==> concrete_type(#[trigger] handles[i]) == wanted
}

impl<T: Component> Typed<T> {
    /// One more handle to the component.
    pub fn handle(this: &Typed<T>) -> (r: Handle)
        ensures
            r == handle_of(*this),
    {
        share(&this.handle)
    }

    /// The shared pointer to the component.
    pub fn arc(this: &Typed<T>) -> (r: &Arc<T>)
        ensures
            *r == value_of(*this),
    {
        &this.value
    }
}

impl<T: Component> Deref for Typed<T> {
    type Target = T;

    /// The component itself: what the shared pointer points to.
    fn deref(&self) -> (r: &T)
        ensures
            *r == *value_of(*self),
    {
        &self.value
    }
}

/// The components behind `handles`, each as a `T` beside its handle, in the
/// same order. Every handle has to be of the type that `key` carries; none
/// is left out.
pub(crate) fn typed<T: Component>(handles: &Vec<Handle>, key: &TypeKey<T>) -> (r: Vec<Typed<T>>)
    requires
        forall|i: int| 0 <= i < handles@.len() ==> concrete_type(#[trigger] handles@[i]) == key.id(),
    ensures
        handles_of(r@) == handles@,
{
    let mut found: Vec<Typed<T>> = Vec::new();
    let mut i: usize = 0;
    while i < handles.len()
        invariant
            i <= handles@.len(),
            found@.len() == i,
            forall|j: int| 0 <= j < i ==> handle_of(#[trigger] found@[j]) == handles@[j],
            forall|j: int|
                0 <= j < handles@.len() ==> concrete_type(#[trigger] handles@[j]) == key.id(),
        decreases handles@.len() - i,
    {
        match handles[i].downcast_with(key) {
            Some(value) => {
                found.push(Typed { handle: share(&handles[i]), value });
            },
            None => {
                assert(concrete_type(handles@[i as int]) == key.id());
                assert(false);
            },
        }
        i = i + 1;
    }
    assert(handles_of(found@) =~= handles@);
    found
}

} // verus!
