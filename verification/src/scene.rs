//! A scene: a world together with the camera and the lights it is seen with.

use crate::sync::new_mutex;
use crate::world::World;
use std::sync::Arc;
use std::sync::Mutex;
use vstd::prelude::*;

verus! {

/// A world, the camera that looks at it, and its lights. The camera type `C`
/// and the light type `L` are the caller's.
#[verifier::reject_recursive_types(C)]
#[verifier::reject_recursive_types(L)]
pub struct Scene<C, L> {
    /// The world of this scene.
    pub world: Arc<World>,
    /// The camera in use; it can be exchanged.
    pub camera: Mutex<Arc<C>>,
    /// The lights.
    pub lights: Mutex<Vec<Arc<L>>>,
}

impl<C, L> Scene<C, L> {
    /// The scene of `world` with the given camera and lights.
    pub fn new(world: Arc<World>, camera: Arc<C>, lights: Vec<Arc<L>>) -> (r: Arc<Self>)
        ensures
            r.world == world,
    {
        Arc::new(Scene { world, camera: new_mutex(camera), lights: new_mutex(lights) })
    }
}

} // verus!
