//! Per-entity data: position, velocity, size, rotation, sprite state and the
//! two timers that drive animation and idle voices.
//!
//! All lengths and velocities are milli-units (`crate::fx`), all times are
//! milliseconds, and random factors are per-mille values below 1000.

use vstd::prelude::*;

use crate::fx::{in_range, COORD_LIMIT};
use crate::rng::random_milli;

verus! {

/// A two-dimensional point or displacement in milli-units.
#[derive(Clone, Copy, PartialEq, Eq, Structural, Debug)]
pub struct Vec2 {
    pub x: i64,
    pub y: i64,
}

impl Vec2 {
    /// Both components are valid stored quantities.
    pub open spec fn wf(self) -> bool {
        in_range(self.x as int) && in_range(self.y as int)
    }

    pub fn new(x: i64, y: i64) -> (v: Vec2)
        ensures
            v.x == x,
            v.y == y,
    {
        Vec2 { x, y }
    }
}

/// Velocity in milli-units per tick.
#[derive(Clone, Copy, PartialEq, Eq, Structural, Debug)]
pub struct Velocity {
    pub x: i64,
    pub y: i64,
}

impl Velocity {
    /// Both components are valid stored quantities.
    pub open spec fn wf(self) -> bool {
        in_range(self.x as int) && in_range(self.y as int)
    }

    pub fn new(x: i64, y: i64) -> (v: Velocity)
        ensures
            v.x == x,
            v.y == y,
    {
        Velocity { x, y }
    }

    /// Squared speed in milli-units squared; exact, never overflows.
    pub fn speed_squared(&self) -> (r: i128)
        requires
            self.wf(),
        ensures
            r as int == (self.x as int) * (self.x as int) + (self.y as int) * (self.y as int),
    {
        proof {
            assert((self.x as int) * (self.x as int) + (self.y as int) * (self.y as int)
                < 0x7fff_ffff_ffff_ffff_ffff_ffff_ffff_ffff) by (nonlinear_arith)
                requires
                    in_range(self.x as int) && in_range(self.y as int),
            ;
            assert((self.x as int) * (self.x as int) >= 0) by (nonlinear_arith);
            assert((self.y as int) * (self.y as int) >= 0) by (nonlinear_arith);
        }
        (self.x as i128) * (self.x as i128) + (self.y as i128) * (self.y as i128)
    }
}

/// Angular speed, in per-mille radians per tick before scaling.
#[derive(Clone, Copy, PartialEq, Eq, Structural, Debug)]
pub struct RotationState {
    pub speed: i64,
}

/// Index of the entity's current node in the sprite-state graph.
#[derive(Clone, Copy, PartialEq, Eq, Structural, Debug)]
pub struct SpriteState {
    pub current_index: usize,
}

/// Eye-blink timer: while open, a randomized cooldown decides when to close;
/// while closed, a short fixed open-duration decides when to reopen.
#[derive(Clone, Copy, PartialEq, Eq, Structural, Debug)]
pub struct BlinkTimer {
    /// Time of the last blink transition, ms.
    pub last_blink_time: u64,
    /// While open: how long to wait before closing, ms.
    pub blink_cooldown: u64,
    /// While closed: how long to stay closed, ms.
    pub blink_open_time: u64,
    /// Eyes are currently closed.
    pub is_blinking: bool,
    /// The next cooldown after reopening is the short double-blink one.
    pub double_blink: bool,
}

/// Idle-voice timer: time of last idle emission and the per-entity random
/// cooldown factor (per-mille, below 1000).
#[derive(Clone, Copy, PartialEq, Eq, Structural, Debug)]
pub struct IdleVoiceTimer {
    pub last_idle_time: u64,
    pub idle_cooldown: u32,
}

impl IdleVoiceTimer {
    pub open spec fn wf(self) -> bool {
        self.idle_cooldown < 1000
    }
}

/// Diameter of the entity, milli-units.
#[derive(Clone, Copy, PartialEq, Eq, Structural, Debug)]
pub struct SpeakiSize(pub i64);

/// Opaque handle of the sound this entity is currently playing, if any.
/// The audio collaborator issues handles and reports completion.
#[derive(Clone, Copy, PartialEq, Eq, Structural, Debug)]
pub struct CurrentAudio {
    pub handle: Option<u64>,
}

/// Rare glowing variant: carries a pulse phase for rendering and a countdown
/// (ms, may go negative on the tick it fires) to its next explosion.
#[derive(Clone, Copy, PartialEq, Eq, Structural, Debug)]
pub struct Shiny {
    /// Random phase offset within a pulse period, per-mille of a full turn.
    pub pulse_phase: u32,
    /// Time until the next explosion, ms.
    pub next_explosion: i64,
}

/// One simulated bouncing character.
#[derive(Clone, Copy, PartialEq, Eq, Structural, Debug)]
pub struct Speaki {
    /// Stable identity, unique within a store.
    pub id: u64,
    pub pos: Vec2,
    pub vel: Velocity,
    pub size: SpeakiSize,
    pub rot: RotationState,
    /// Accumulated orientation, milli-radians.
    pub angle: i64,
    pub sprite: SpriteState,
    pub blink: BlinkTimer,
    pub idle: IdleVoiceTimer,
    pub audio: CurrentAudio,
    /// The entity is currently held by the pointer.
    pub dragged: bool,
    pub shiny: Option<Shiny>,
}

impl Speaki {
    /// Well-formed against a sprite-state graph of `graph_len` nodes:
    /// every stored quantity is in range, the size is positive, and the
    /// sprite index points into the graph.
    pub open spec fn wf(self, graph_len: nat) -> bool {
        &&& self.pos.wf()
        &&& self.vel.wf()
        &&& 0 < self.size.0 <= COORD_LIMIT
        &&& in_range(self.rot.speed as int)
        &&& in_range(self.angle as int)
        &&& self.sprite.current_index < graph_len
        &&& self.blink.last_blink_time <= 0x7fff_ffff_ffff_ffff
        &&& self.blink.blink_cooldown <= 0x7fff_ffff_ffff_ffff
        &&& self.blink.blink_open_time <= 0x7fff_ffff_ffff_ffff
        &&& self.idle.wf()
        &&& match self.shiny {
            Some(sh) => in_range(sh.next_explosion as int) && sh.pulse_phase < 1000,
            None => true,
        }
    }
}


impl Default for Velocity {
    /// At rest.
    fn default() -> (v: Velocity)
        ensures
            v == (Velocity { x: 0i64, y: 0i64 }),
    {
        Velocity { x: 0, y: 0 }
    }
}

impl Default for RotationState {
    /// A random angular speed in `[-0.5, 0.5)`.
    fn default() -> (r: RotationState)
        ensures
            -500 <= r.speed < 500,
    {
        RotationState { speed: random_milli() as i64 - 500 }
    }
}

impl Default for SpriteState {
    /// The default expression.
    fn default() -> (s: SpriteState)
        ensures
            s.current_index == 0,
    {
        SpriteState { current_index: 0 }
    }
}

impl Default for BlinkTimer {
    /// Eyes open, with a random cooldown between 5 and 10 seconds.
    fn default() -> (b: BlinkTimer)
        ensures
            b.last_blink_time == 0,
            5000 <= b.blink_cooldown < 10_000,
            b.blink_open_time == 0,
            !b.is_blinking,
            !b.double_blink,
    {
        BlinkTimer {
            last_blink_time: 0,
            blink_cooldown: 5000 + 5 * (random_milli() as u64),
            blink_open_time: 0,
            is_blinking: false,
            double_blink: false,
        }
    }
}

impl Default for IdleVoiceTimer {
    /// A fresh random cooldown factor.
    fn default() -> (t: IdleVoiceTimer)
        ensures
            t.last_idle_time == 0,
            t.wf(),
    {
        IdleVoiceTimer { last_idle_time: 0, idle_cooldown: random_milli() }
    }
}

impl Default for SpeakiSize {
    /// The base diameter of 150 units.
    fn default() -> (s: SpeakiSize)
        ensures
            s.0 == 150_000,
    {
        SpeakiSize(150_000)
    }
}

impl Default for CurrentAudio {
    /// Nothing playing.
    fn default() -> (a: CurrentAudio)
        ensures
            a.handle is None,
    {
        CurrentAudio { handle: None }
    }
}

impl Default for Shiny {
    /// A random pulse phase and an initial pause of 3 to 8 seconds before
    /// the first explosion.
    fn default() -> (s: Shiny)
        ensures
            s.pulse_phase < 1000,
            3000 <= s.next_explosion < 8000,
    {
        Shiny {
            pulse_phase: random_milli(),
            next_explosion: 3000 + 5 * (random_milli() as i64),
        }
    }
}

} // verus!
