//! How the entity of a remote peer takes in a record of its peer.
//!
//! The position is corrected by how far off it is: far off, it jumps to
//! the record's; a little off, it is drawn towards it by a fixed share of the
//! way each time; nearly right, it is left to the entity's own velocity.
//! Rotation and velocity are always the record's. The tier is chosen anew
//! for every record and kept nowhere.

use vstd::prelude::*;
use crate::ieee::{exceeds, greater, lemma_greater_strict, ONE, ZERO};
use crate::wire::{QuatBits, Synchronizer, Vec3Bits};

verus! {

/// The value 0.5: up to this distance the position is left alone.
pub const POSITION_THRESHOLD: u32 = 0x3f00_0000;

/// The value 5.0: beyond this distance the position jumps.
pub const TELEPORT_THRESHOLD: u32 = 0x40a0_0000;

/// The value 0.2: the share of the way that one smooth correction covers.
pub const CORRECTION_FRACTION: u32 = 0x3e4c_cccd;

/// The length of the cross-fade into a new animation, in milliseconds.
pub const CROSS_FADE_MILLIS: u64 = 200;

/// The three ways to treat a positional error.
#[derive(Clone, Copy, Debug, PartialEq, Eq, Structural)]
pub enum Tier {
    /// The error is beyond the teleport threshold.
    Snap,
    /// The error is beyond the position threshold, and not beyond the
    /// teleport threshold.
    SmoothCorrect,
    /// The error is within the position threshold, or is no number.
    Hold,
}

/// What to do to the entity's position.
#[derive(Clone, Copy, Debug, PartialEq, Eq, Structural)]
pub enum Placement {
    /// Leave it as it is.
    Keep,
    /// Set it to this position.
    Snap(Vec3Bits),
    /// Move it from `from` towards `toward` by the share `fraction` of the
    /// way between them.
    Blend { from: Vec3Bits, toward: Vec3Bits, fraction: u32 },
}

/// What the correction reads of the entity: where it is drawn now, and the
/// animation that was last started on it.
#[derive(Clone, Copy, Debug, PartialEq, Eq, Structural)]
pub struct Rendered {
    pub position: Vec3Bits,
    pub animation_index: u32,
}

/// What one record does to the entity.
#[derive(Clone, Copy, Debug, PartialEq, Eq, Structural)]
pub struct Correction {
    pub tier: Tier,
    pub position: Placement,
    pub rotation: QuatBits,
    pub velocity: Vec3Bits,
    /// The animation to fade into, when the record names another than the
    /// one last started.
    pub play: Option<u32>,
    /// The animation to remember as last started.
    pub animation_index: u32,
}

/// The tier for a positional error of `distance`.
pub open spec fn tier_of(distance: u32) -> Tier {
    if greater(distance, TELEPORT_THRESHOLD) {
        Tier::Snap
    } else if greater(distance, POSITION_THRESHOLD) {
        Tier::SmoothCorrect
    } else {
        Tier::Hold
    }
}

/// What the tier does to a position `from` when the record says `toward`.
pub open spec fn placement_of(tier: Tier, from: Vec3Bits, toward: Vec3Bits) -> Placement {
    match tier {
        Tier::Snap => Placement::Snap(toward),
        Tier::SmoothCorrect => Placement::Blend { from, toward, fraction: CORRECTION_FRACTION },
        Tier::Hold => Placement::Keep,
    }
}

/// The correction that `incoming` asks of an entity in the state `current`
/// that is drawn `distance` away from the record's position.
pub open spec fn correction_of(current: Rendered, incoming: Synchronizer, distance: u32) -> Correction {
    Correction {
        tier: tier_of(distance),
        position: placement_of(tier_of(distance), current.position, incoming.pos),
        rotation: incoming.rot,
        velocity: incoming.velocity,
        play: if incoming.animation_index != current.animation_index {
            Some(incoming.animation_index)
        } else {
            None
        },
        animation_index: incoming.animation_index,
    }
}

/// Chooses the tier for a positional error of `distance`.
pub fn classify(distance: u32) -> (tier: Tier)
    ensures
        tier == tier_of(distance),
{
    if exceeds(distance, TELEPORT_THRESHOLD) {
        Tier::Snap
    } else if exceeds(distance, POSITION_THRESHOLD) {
        Tier::SmoothCorrect
    } else {
        Tier::Hold
    }
}

/// Works out what `incoming` does to an entity in the state `current`.
/// `distance` is the distance from the entity's position to the record's.
pub fn reconcile(current: &Rendered, incoming: &Synchronizer, distance: u32) -> (correction:
    Correction)
    ensures
        correction == correction_of(*current, *incoming, distance),
{
    let tier: Tier = classify(distance);
    let position: Placement = match tier {
        Tier::Snap => Placement::Snap(incoming.pos),
        Tier::SmoothCorrect => Placement::Blend {
            from: current.position,
            toward: incoming.pos,
            fraction: CORRECTION_FRACTION,
        },
        Tier::Hold => Placement::Keep,
    };
    let play: Option<u32> = if incoming.animation_index != current.animation_index {
        Some(incoming.animation_index)
    } else {
        None
    };
    Correction {
        tier,
        position,
        rotation: incoming.rot,
        velocity: incoming.velocity,
        play,
        animation_index: incoming.animation_index,
    }
}

/// An error beyond the teleport threshold sets the position to the
/// record's, exactly. An error beyond the position threshold and not beyond
/// the teleport threshold moves the position towards the record's by a share
/// of the way that is more than nothing and less than all of it. Any other
/// error leaves the position untouched. Rotation and velocity are the
/// record's in every tier.
pub proof fn lemma_tiered_correction(current: Rendered, incoming: Synchronizer, distance: u32)
    ensures
        greater(distance, TELEPORT_THRESHOLD) ==> correction_of(current, incoming, distance).position
            == Placement::Snap(incoming.pos),
        greater(distance, POSITION_THRESHOLD) && !greater(distance, TELEPORT_THRESHOLD)
            ==> correction_of(current, incoming, distance).position == (Placement::Blend {
            from: current.position,
            toward: incoming.pos,
            fraction: CORRECTION_FRACTION,
        }),
        !greater(distance, POSITION_THRESHOLD) ==> correction_of(
            current,
            incoming,
            distance,
        ).position == Placement::Keep,
        greater(CORRECTION_FRACTION, ZERO) && greater(ONE, CORRECTION_FRACTION),
        correction_of(current, incoming, distance).rotation == incoming.rot,
        correction_of(current, incoming, distance).velocity == incoming.velocity,
{
    lemma_greater_strict(distance, TELEPORT_THRESHOLD, POSITION_THRESHOLD);
}

} // verus!
