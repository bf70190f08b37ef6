//! The application and its runtime as units.

use vstd::prelude::*;

verus! {

/// The editor application.
pub struct Application;

impl Application {
    /// The number of modules the application is made of.
    pub fn module_count() -> (count: usize)
        ensures
            count == 7,
    {
        7
    }
}

/// The runtime that drives the window, the renderer and the world.
pub struct Runtime;

} // verus!
