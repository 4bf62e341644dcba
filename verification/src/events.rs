//! Outbound requests produced by the simulation and drained once per tick
//! by external collaborators (audio, rendering, entity-store mutation).
//! No request is silently dropped except where its referenced group is
//! empty, in which case emission is skipped at the source.

use vstd::prelude::*;

use crate::components::{Vec2, Velocity};

verus! {

/// Ask for a new entity at a position with an initial velocity.
#[derive(Clone, Copy, PartialEq, Eq, Structural, Debug)]
pub struct SpawnSpeakiEvent {
    pub position: Vec2,
    pub velocity: Velocity,
}

/// Ask for an entity's removal.
#[derive(Clone, Copy, PartialEq, Eq, Structural, Debug)]
pub struct DespawnSpeakiEvent {
    pub entity: u64,
}

/// Ask the audio collaborator to play a voice, optionally tied to an entity
/// whose mouth should animate. Volume is a per-mille amplitude.
#[derive(Clone, Copy, PartialEq, Eq, Structural, Debug)]
pub struct PlayVoiceEvent {
    pub entity: Option<u64>,
    pub voice_index: usize,
    pub volume: u32,
}

/// An entity hit a wall fast enough to react.
#[derive(Clone, Copy, PartialEq, Eq, Structural, Debug)]
pub struct WallBounceEvent {
    pub entity: u64,
}

/// Two entities fused; carries both identities and the resulting state.
#[derive(Clone, Copy, PartialEq, Eq, Structural, Debug)]
pub struct MergeSpeakiEvent {
    pub entity1: u64,
    pub entity2: u64,
    pub position: Vec2,
    pub combined_velocity: Velocity,
    pub new_size: i64,
}

/// Ask for an expanding shockwave visual at an explosion's position.
#[derive(Clone, Copy, PartialEq, Eq, Structural, Debug)]
pub struct Shockwave {
    pub position: Vec2,
    pub max_radius: i64,
    pub duration: u64,
}

/// The outbound queues, drained by collaborators after each tick.
pub struct RequestBus {
    pub spawns: Vec<SpawnSpeakiEvent>,
    pub despawns: Vec<DespawnSpeakiEvent>,
    pub voices: Vec<PlayVoiceEvent>,
    pub bounces: Vec<WallBounceEvent>,
    pub merges: Vec<MergeSpeakiEvent>,
    pub shockwaves: Vec<Shockwave>,
}

impl RequestBus {
    pub fn new() -> (b: RequestBus)
        ensures
            b.spawns@ == Seq::<SpawnSpeakiEvent>::empty(),
            b.despawns@ == Seq::<DespawnSpeakiEvent>::empty(),
            b.voices@ == Seq::<PlayVoiceEvent>::empty(),
            b.bounces@ == Seq::<WallBounceEvent>::empty(),
            b.merges@ == Seq::<MergeSpeakiEvent>::empty(),
            b.shockwaves@ == Seq::<Shockwave>::empty(),
    {
        let b = RequestBus {
            spawns: Vec::new(),
            despawns: Vec::new(),
            voices: Vec::new(),
            bounces: Vec::new(),
            merges: Vec::new(),
            shockwaves: Vec::new(),
        };
        b
    }

    /// Empty every queue, once collaborators have drained it.
    pub fn clear(&mut self)
        ensures
            final(self).spawns@ == Seq::<SpawnSpeakiEvent>::empty(),
            final(self).despawns@ == Seq::<DespawnSpeakiEvent>::empty(),
            final(self).voices@ == Seq::<PlayVoiceEvent>::empty(),
            final(self).bounces@ == Seq::<WallBounceEvent>::empty(),
            final(self).merges@ == Seq::<MergeSpeakiEvent>::empty(),
            final(self).shockwaves@ == Seq::<Shockwave>::empty(),
    {
        self.spawns.clear();
        self.despawns.clear();
        self.voices.clear();
        self.bounces.clear();
        self.merges.clear();
        self.shockwaves.clear();
    }
}

} // verus!
