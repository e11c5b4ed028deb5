//! The switch that stops the simulation.

use vstd::prelude::*;

verus! {

/// The clock that drives the simulation. While it is paused no tick runs.
#[derive(Clone, Copy, Debug, PartialEq, Eq, Structural)]
pub struct PhysicsClock {
    pub paused: bool,
}

impl PhysicsClock {
    /// A running clock.
    pub fn new() -> (clock: Self)
        ensures
            !clock.paused,
    {
        PhysicsClock { paused: false }
    }

    /// Whether the clock is paused.
    pub fn is_paused(&self) -> (paused: bool)
        ensures
            paused == self.paused,
    {
        self.paused
    }
}

/// Stops the simulation.
pub fn pause_physics(physics_time: &mut PhysicsClock)
    ensures
        final(physics_time).paused,
{
    physics_time.paused = true;
}

/// Lets the simulation run again.
pub fn unpause_physics(physics_time: &mut PhysicsClock)
    ensures
        !final(physics_time).paused,
{
    physics_time.paused = false;
}

/// Follows the pause menu: the simulation stops when the menu opens and
/// runs again when it closes. Without such an edge the clock is left alone.
pub fn plugin(physics_time: &mut PhysicsClock, menu_was_open: bool, menu_is_open: bool)
    ensures
        final(physics_time).paused == if menu_was_open == menu_is_open {
            old(physics_time).paused
        } else {
            menu_is_open
        },
{
    if menu_is_open && !menu_was_open {
        pause_physics(physics_time);
    } else if menu_was_open && !menu_is_open {
        unpause_physics(physics_time);
    }
}

} // verus!
