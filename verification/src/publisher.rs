//! The publisher of the local player's state.
//!
//! Once per tick the simulation reads the local player and tells the
//! publisher how far the player has moved and turned since the record that
//! was last sent. When either is over the threshold the whole current state
//! is sent and becomes the new baseline; below it nothing is sent, so that
//! jitter in the last bits does not flood the connection.

use vstd::prelude::*;
use crate::channel::WSMessageChannels;
use crate::ieee::{abs, exceeds, greater, is_nan, magnitude};
use crate::message::WSMessages;
use crate::wire::{QuatBits, Synchronizer, Vec3Bits};

verus! {

/// The value 0.1: how far, in world units, and how much, in radians, the
/// player must have moved or turned for a record to be sent.
pub const THRESHOLD: u32 = 0x3dcc_cccd;

/// What one tick reads off the local player.
#[derive(Clone, Copy, Debug, PartialEq, Eq, Structural)]
pub struct LocalSample {
    pub position: Vec3Bits,
    pub rotation: QuatBits,
    pub velocity: Vec3Bits,
    pub speed: u32,
    pub jump: bool,
    pub animation_index: u32,
}

/// What the publisher did in one tick.
#[derive(Clone, Copy, Debug, PartialEq, Eq, Structural)]
pub enum Published {
    /// Neither threshold was passed: nothing was sent.
    Nothing,
    /// A record went into the outgoing queue.
    Sent,
    /// A record was due, but the connection no longer listens: it is lost.
    Dropped,
}

/// Whether a record is due, given the distance `moved` and the angle
/// `turned` since the last one. The angle counts by its absolute value.
pub open spec fn is_due(moved: u32, turned: u32) -> bool {
    greater(moved, THRESHOLD) || greater(magnitude(turned), THRESHOLD)
}

impl LocalSample {
    /// The record that says of the peer `id` what the sample says.
    pub open spec fn record(self, id: i64) -> Synchronizer {
        Synchronizer {
            id,
            pos: self.position,
            rot: self.rotation,
            velocity: self.velocity,
            speed: self.speed,
            jump: self.jump,
            animation_index: self.animation_index,
        }
    }
}

/// `rand::random::<i64>`: a random number from the thread's generator.
/// Nothing is claimed of it.
#[verifier::external_body]
fn random_id() -> (id: i64) {
    rand::random::<i64>()
}

impl Synchronizer {
    /// The baseline of a newly made local player: at rest, under an
    /// identifier drawn at random.
    pub fn default() -> (s: Synchronizer)
        ensures
            s == Synchronizer::at_rest(s.id),
    {
        Synchronizer::with_id(random_id())
    }

    /// Takes in this tick's sample. When a record is due the baseline
    /// becomes the whole sample; else only its speed is brought up to date.
    /// `moved` is the distance from the baseline's position to the sample's,
    /// `turned` the angle between the two rotations.
    pub fn refresh(&mut self, now: &LocalSample, moved: u32, turned: u32) -> (changed: bool)
        ensures
            changed == is_due(moved, turned),
            changed ==> *final(self) == now.record(old(self).id),
            !changed ==> *final(self) == (Synchronizer { speed: now.speed, ..*old(self) }),
    {
        let changed: bool = exceeds(moved, THRESHOLD) || exceeds(abs(turned), THRESHOLD);
        self.speed = now.speed;
        if changed {
            self.pos = now.position;
            self.rot = now.rotation;
            self.velocity = now.velocity;
            self.jump = now.jump;
            self.animation_index = now.animation_index;
        }
        changed
    }

    /// The message that publishes the record: its bytes, as a `Sync`.
    pub fn to_message(&self) -> (message: WSMessages)
        ensures
            message matches WSMessages::Sync(bytes) && bytes@ == self.wire(),
    {
        WSMessages::Sync(self.to_bytes())
    }

    /// Encodes the record and puts it into the outgoing queue. When the
    /// connection no longer listens the message comes back; it is not tried
    /// again.
    pub fn sync(&self, channels: &WSMessageChannels) -> (result: Result<(), WSMessages>)
        ensures
            result matches Err(unsent) ==> unsent matches WSMessages::Sync(bytes) && bytes@
                == self.wire(),
    {
        channels.send(self.to_message())
    }
}

/// One tick of the publisher for one local player: at most one message,
/// never a wait, never a second try.
pub fn multiplayer_sender(
    last: &mut Synchronizer,
    now: &LocalSample,
    moved: u32,
    turned: u32,
    channels: &WSMessageChannels,
) -> (outcome: Published)
    ensures
        outcome is Nothing <==> !is_due(moved, turned),
        is_due(moved, turned) ==> *final(last) == now.record(old(last).id),
        !is_due(moved, turned) ==> *final(last) == (Synchronizer { speed: now.speed, ..*old(last) }),
{
    if last.refresh(now, moved, turned) {
        match last.sync(channels) {
            Ok(_) => Published::Sent,
            Err(_) => Published::Dropped,
        }
    } else {
        Published::Nothing
    }
}

/// A player that has not moved and not turned is below the threshold,
/// whichever zero stands for each, and so is one for whom either number is
/// no number at all.
pub proof fn lemma_still_is_not_due(moved: u32, turned: u32)
    requires
        magnitude(moved) == 0 || is_nan(moved),
        magnitude(turned) == 0 || is_nan(turned),
    ensures
        !is_due(moved, turned),
{
}

} // verus!
