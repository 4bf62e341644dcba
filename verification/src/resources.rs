//! Externally-owned configuration and process-wide state, read each tick.
//!
//! Dimensionless coefficients are per-mille (700 means 0.7), lengths and
//! velocities milli-units, times milliseconds, volumes per-mille of full
//! amplitude.

use vstd::prelude::*;

use crate::components::Vec2;
use crate::fx::{in_range, COEFF_LIMIT};

verus! {

/// General gameplay configuration.
#[derive(Clone, Copy, PartialEq, Eq, Structural, Debug)]
pub struct GameConfig {
    /// Number of entities seeded at startup.
    pub speaki_count: u32,
    /// Diameter given to newly spawned entities, milli-units.
    pub speaki_size: i64,
    /// A primary click on empty space spawns a new entity.
    pub click_to_add: bool,
    /// The blink automaton runs.
    pub eye_blink_enabled: bool,
}

impl GameConfig {
    pub open spec fn wf(self) -> bool {
        0 < self.speaki_size <= crate::fx::COORD_LIMIT
    }
}

impl Default for GameConfig {
    /// Three entities of diameter 200 units, click-to-add and blinking on.
    fn default() -> (c: GameConfig)
        ensures
            c == (GameConfig {
                speaki_count: 3u32,
                speaki_size: 200_000i64,
                click_to_add: true,
                eye_blink_enabled: true,
            }),
            c.wf(),
    {
        GameConfig { speaki_count: 3, speaki_size: 200_000, click_to_add: true, eye_blink_enabled: true }
    }
}

/// Physics configuration.
#[derive(Clone, Copy, PartialEq, Eq, Structural, Debug)]
pub struct PhysicsConfig {
    /// Velocity lost downward each tick, milli-units.
    pub gravity: i64,
    /// Per-mille restitution of the perpendicular component on a wall hit.
    pub bounce: i64,
    /// Per-mille kept of the tangential component and rotation on a wall hit.
    pub friction: i64,
    /// Per-mille scale from angular speed to orientation advance per tick.
    pub rotation_speed: i64,
    pub collision_enabled: bool,
    /// Per-mille damping of pairwise-collision impulses and rotation.
    pub collision_damping: i64,
    /// Magnitude of the fixed approach velocity imposed on a pair that
    /// involves the dragged entity, milli-units.
    pub cursor_impulse: i64,
    /// Per-mille multiplier of the throw velocity on drag release.
    pub cursor_throwing_power: i64,
    /// Per-mille scale of the squared-speed threshold over which a wall hit
    /// emits a bounce request.
    pub bounce_responsiveness: i64,
}

impl PhysicsConfig {
    pub open spec fn wf(self) -> bool {
        &&& in_range(self.gravity as int)
        &&& 0 <= self.bounce <= COEFF_LIMIT
        &&& 0 <= self.friction <= COEFF_LIMIT
        &&& 0 <= self.rotation_speed <= COEFF_LIMIT
        &&& 0 <= self.collision_damping <= COEFF_LIMIT
        &&& 0 <= self.cursor_impulse <= crate::fx::COORD_LIMIT
        &&& 0 <= self.cursor_throwing_power <= COEFF_LIMIT
        &&& 0 <= self.bounce_responsiveness <= COEFF_LIMIT
    }
}

impl Default for PhysicsConfig {
    /// Gravity 0.5, bounce 0.7, friction 0.5, rotation scale 0.3, damping
    /// 0.99, cursor impulse 20, throw power 1.0, responsiveness 1.0.
    fn default() -> (c: PhysicsConfig)
        ensures
            c == (PhysicsConfig {
                gravity: 500i64,
                bounce: 700i64,
                friction: 500i64,
                rotation_speed: 300i64,
                collision_enabled: true,
                collision_damping: 990i64,
                cursor_impulse: 20_000i64,
                cursor_throwing_power: 1000i64,
                bounce_responsiveness: 1000i64,
            }),
            c.wf(),
    {
        PhysicsConfig {
            gravity: 500,
            bounce: 700,
            friction: 500,
            rotation_speed: 300,
            collision_enabled: true,
            collision_damping: 990,
            cursor_impulse: 20_000,
            cursor_throwing_power: 1000,
            bounce_responsiveness: 1000,
        }
    }
}

/// Audio configuration. Volumes are per-mille amplitudes handed through to
/// the audio collaborator; the idle frequency steers the idle-voice timer.
#[derive(Clone, Copy, PartialEq, Eq, Structural, Debug)]
pub struct AudioConfig {
    pub master_volume: u32,
    pub grab_volume: u32,
    pub bounce_volume: u32,
    pub create_volume: u32,
    pub remove_volume: u32,
    pub idle_volume: u32,
    /// Per-mille idle frequency; zero or negative disables idle voices.
    pub idle_frequency: i64,
}

impl AudioConfig {
    pub open spec fn wf(self) -> bool {
        &&& self.master_volume <= 1000
        &&& self.grab_volume <= 1000
        &&& self.bounce_volume <= 1000
        &&& self.create_volume <= 1000
        &&& self.remove_volume <= 1000
        &&& self.idle_volume <= 1000
        &&& self.idle_frequency <= 1000
    }
}

impl Default for AudioConfig {
    fn default() -> (c: AudioConfig)
        ensures
            c == (AudioConfig {
                master_volume: 300u32,
                grab_volume: 1000u32,
                bounce_volume: 300u32,
                create_volume: 1000u32,
                remove_volume: 1000u32,
                idle_volume: 800u32,
                idle_frequency: 500i64,
            }),
            c.wf(),
    {
        AudioConfig {
            master_volume: 300,
            grab_volume: 1000,
            bounce_volume: 300,
            create_volume: 1000,
            remove_volume: 1000,
            idle_volume: 800,
            idle_frequency: 500,
        }
    }
}

/// Fraction of each half-extent cut off the world on each side, per-mille.
#[derive(Clone, Copy, PartialEq, Eq, Structural, Debug)]
pub struct BorderConfig {
    pub left: i64,
    pub right: i64,
    pub up: i64,
    pub down: i64,
}

impl BorderConfig {
    pub open spec fn wf(self) -> bool {
        &&& 0 <= self.left <= 1000
        &&& 0 <= self.right <= 1000
        &&& 0 <= self.up <= 1000
        &&& 0 <= self.down <= 1000
    }
}

impl Default for BorderConfig {
    fn default() -> (c: BorderConfig)
        ensures
            c == (BorderConfig { left: 0i64, right: 0i64, up: 0i64, down: 0i64 }),
            c.wf(),
    {
        BorderConfig { left: 0, right: 0, up: 0, down: 0 }
    }
}

/// Size-based merging configuration.
#[derive(Clone, Copy, PartialEq, Eq, Structural, Debug)]
pub struct MergeConfig {
    pub enabled: bool,
    /// Largest allowed per-mille relative size difference of a merging pair.
    pub size_tolerance: i64,
    /// Per-mille growth of the average size on a merge.
    pub growth_factor: i64,
    /// Diameter cap, milli-units.
    pub max_size: i64,
    /// Upward velocity pop given to the surviving entity, milli-units.
    pub merge_impulse: i64,
}

impl MergeConfig {
    /// Growth at least 1.0, so a merged entity never shrinks to nothing.
    pub open spec fn wf(self) -> bool {
        &&& 0 <= self.size_tolerance <= COEFF_LIMIT
        &&& 1000 <= self.growth_factor <= COEFF_LIMIT
        &&& 0 < self.max_size <= crate::fx::COORD_LIMIT
        &&& 0 <= self.merge_impulse <= crate::fx::COORD_LIMIT
    }
}

impl Default for MergeConfig {
    /// Tolerance 0.5, growth 1.2, cap 400 units, pop 2 units.
    fn default() -> (c: MergeConfig)
        ensures
            c == (MergeConfig {
                enabled: true,
                size_tolerance: 500i64,
                growth_factor: 1200i64,
                max_size: 400_000i64,
                merge_impulse: 2000i64,
            }),
            c.wf(),
    {
        MergeConfig {
            enabled: true,
            size_tolerance: 500,
            growth_factor: 1200,
            max_size: 400_000,
            merge_impulse: 2000,
        }
    }
}

/// Shiny-variant explosion configuration.
#[derive(Clone, Copy, PartialEq, Eq, Structural, Debug)]
pub struct ShinyConfig {
    pub explosion_enabled: bool,
    pub shockwave_enabled: bool,
    /// Reach of an explosion, milli-units.
    pub explosion_radius: i64,
    /// Velocity impulse at the explosion's center, milli-units.
    pub explosion_force: i64,
    /// Bounds of the uniformly drawn pause between explosions, ms.
    pub explosion_interval_min: u64,
    pub explosion_interval_max: u64,
    /// How long the visual shockwave lasts, ms.
    pub shockwave_duration: u64,
}

impl ShinyConfig {
    pub open spec fn wf(self) -> bool {
        &&& 0 < self.explosion_radius <= crate::fx::COORD_LIMIT
        &&& 0 <= self.explosion_force <= crate::fx::COORD_LIMIT
        &&& self.explosion_interval_min <= self.explosion_interval_max
        &&& self.explosion_interval_max <= 1_000_000_000_000_000
    }
}

impl Default for ShinyConfig {
    /// Radius 400 units, force 80 units, pauses of 3 to 8 seconds, half a
    /// second of shockwave.
    fn default() -> (c: ShinyConfig)
        ensures
            c == (ShinyConfig {
                explosion_enabled: true,
                shockwave_enabled: true,
                explosion_radius: 400_000i64,
                explosion_force: 80_000i64,
                explosion_interval_min: 3000u64,
                explosion_interval_max: 8000u64,
                shockwave_duration: 500u64,
            }),
            c.wf(),
    {
        ShinyConfig {
            explosion_enabled: true,
            shockwave_enabled: true,
            explosion_radius: 400_000,
            explosion_force: 80_000,
            explosion_interval_min: 3000,
            explosion_interval_max: 8000,
            shockwave_duration: 500,
        }
    }
}

/// Process-wide drag bookkeeping, mutated by the interaction controller.
#[derive(Clone, Copy, PartialEq, Eq, Structural, Debug)]
pub struct DragState {
    pub is_dragging: bool,
    pub dragged_entity: Option<u64>,
    /// Reference position for throw-velocity computation, milli-units.
    pub last_start_pos: Vec2,
    /// Reference time for throw-velocity computation, ms.
    pub last_start_time: u64,
    /// Time of the last primary click on empty space, ms.
    pub last_click_time: u64,
}

impl DragState {
    pub open spec fn wf(self) -> bool {
        self.last_start_pos.wf()
    }
}

impl Default for DragState {
    fn default() -> (d: DragState)
        ensures
            d == (DragState {
                is_dragging: false,
                dragged_entity: None::<u64>,
                last_start_pos: Vec2 { x: 0i64, y: 0i64 },
                last_start_time: 0u64,
                last_click_time: 0u64,
            }),
            d.wf(),
    {
        DragState {
            is_dragging: false,
            dragged_entity: None,
            last_start_pos: Vec2 { x: 0, y: 0 },
            last_start_time: 0,
            last_click_time: 0,
        }
    }
}

/// Last observed window position (milli-units), for the inertia effect.
#[derive(Clone, Copy, PartialEq, Eq, Structural, Debug)]
pub struct WindowPositionTracker {
    pub last_position: Option<Vec2>,
    pub enabled: bool,
    /// Per-mille strength of the inertia impulse.
    pub strength: i64,
}

impl WindowPositionTracker {
    pub open spec fn wf(self) -> bool {
        &&& 0 <= self.strength <= COEFF_LIMIT
        &&& match self.last_position {
            Some(p) => p.wf(),
            None => true,
        }
    }
}

impl Default for WindowPositionTracker {
    fn default() -> (t: WindowPositionTracker)
        ensures
            t == (WindowPositionTracker {
                last_position: None::<Vec2>,
                enabled: true,
                strength: 100i64,
            }),
            t.wf(),
    {
        WindowPositionTracker { last_position: None, enabled: true, strength: 100 }
    }
}

} // verus!
