//! The wire record of one player's state, and its fixed binary layout.
//!
//! A record is 57 bytes, every field little-endian, with no tag, length or
//! checksum:
//!
//! | offset | bytes | field                       |
//! |-------:|------:|-----------------------------|
//! |      0 |     8 | id, signed                  |
//! |      8 |    12 | position x, y, z            |
//! |     20 |    16 | rotation x, y, z, w         |
//! |     36 |    12 | velocity x, y, z            |
//! |     48 |     4 | speed                       |
//! |     52 |     1 | jump, 0 or 1                |
//! |     53 |     4 | animation index, unsigned   |

use vstd::prelude::*;
use crate::endian::{join_u32, join_u64, le_u32, le_u64, put_u32, put_u64, take_u32, take_u64};
use crate::endian::{lemma_join_le_u32, lemma_join_le_u64};
use crate::ieee::ONE;

verus! {

/// The length of a record on the wire.
pub const WIRE_LEN: usize = 57;

/// Three binary32 values, each as its bit pattern.
#[derive(Clone, Copy, Debug, PartialEq, Eq, Structural)]
pub struct Vec3Bits {
    pub x: u32,
    pub y: u32,
    pub z: u32,
}

/// A quaternion of four binary32 values, each as its bit pattern.
#[derive(Clone, Copy, Debug, PartialEq, Eq, Structural)]
pub struct QuatBits {
    pub x: u32,
    pub y: u32,
    pub z: u32,
    pub w: u32,
}

/// The state of one player as it travels between peers.
#[derive(Clone, Copy, Debug, PartialEq, Eq, Structural)]
pub struct Synchronizer {
    /// The peer's identifier, drawn at random when its player is created.
    pub id: i64,
    pub pos: Vec3Bits,
    pub rot: QuatBits,
    pub velocity: Vec3Bits,
    pub speed: u32,
    pub jump: bool,
    pub animation_index: u32,
}

/// Why a byte string is no record.
#[derive(Clone, Copy, Debug, PartialEq, Eq, Structural)]
pub enum DecodeError {
    /// The input is shorter than a record.
    InsufficientBytes,
}

impl DecodeError {
    /// The error in words.
    pub fn message(&self) -> (text: &'static str)
        ensures
            text@ == "Not enough bytes"@,
    {
        "Not enough bytes"
    }
}

impl Vec3Bits {
    /// Three positive zeros.
    pub open spec fn spec_zero() -> Vec3Bits {
        Vec3Bits { x: 0, y: 0, z: 0 }
    }

    /// Three positive zeros.
    #[verifier::when_used_as_spec(spec_zero)]
    pub fn zero() -> (v: Vec3Bits)
        ensures
            v == Vec3Bits::spec_zero(),
    {
        Vec3Bits { x: 0, y: 0, z: 0 }
    }

    /// The twelve bytes of the three values, in the order x, y, z.
    pub open spec fn wire(self) -> Seq<u8> {
        le_u32(self.x) + le_u32(self.y) + le_u32(self.z)
    }

    /// The three values whose bytes start at `at` in `b`.
    pub open spec fn parse_at(b: Seq<u8>, at: int) -> Vec3Bits {
        Vec3Bits {
            x: join_u32(b.subrange(at, at + 4)),
            y: join_u32(b.subrange(at + 4, at + 8)),
            z: join_u32(b.subrange(at + 8, at + 12)),
        }
    }

    fn put(&self, out: &mut Vec<u8>)
        ensures
            final(out)@ == old(out)@ + self.wire(),
    {
        put_u32(out, self.x);
        put_u32(out, self.y);
        put_u32(out, self.z);
        assert(out@ =~= old(out)@ + self.wire());
    }

    fn take(bytes: &[u8], at: usize) -> (v: Vec3Bits)
        requires
            at + 12 <= bytes@.len(),
        ensures
            v == Vec3Bits::parse_at(bytes@, at as int),
    {
        let len: usize = bytes.len();
        assert(at + 12 <= len);
        Vec3Bits {
            x: take_u32(bytes, at),
            y: take_u32(bytes, at + 4),
            z: take_u32(bytes, at + 8),
        }
    }
}

impl QuatBits {
    /// The rotation that turns nothing: (0, 0, 0, 1).
    pub open spec fn spec_identity() -> QuatBits {
        QuatBits { x: 0, y: 0, z: 0, w: ONE }
    }

    /// The rotation that turns nothing: (0, 0, 0, 1).
    #[verifier::when_used_as_spec(spec_identity)]
    pub fn identity() -> (q: QuatBits)
        ensures
            q == QuatBits::spec_identity(),
    {
        QuatBits { x: 0, y: 0, z: 0, w: ONE }
    }

    /// The sixteen bytes of the four values, in the order x, y, z, w.
    pub open spec fn wire(self) -> Seq<u8> {
        le_u32(self.x) + le_u32(self.y) + le_u32(self.z) + le_u32(self.w)
    }

    /// The four values whose bytes start at `at` in `b`.
    pub open spec fn parse_at(b: Seq<u8>, at: int) -> QuatBits {
        QuatBits {
            x: join_u32(b.subrange(at, at + 4)),
            y: join_u32(b.subrange(at + 4, at + 8)),
            z: join_u32(b.subrange(at + 8, at + 12)),
            w: join_u32(b.subrange(at + 12, at + 16)),
        }
    }

    fn put(&self, out: &mut Vec<u8>)
        ensures
            final(out)@ == old(out)@ + self.wire(),
    {
        put_u32(out, self.x);
        put_u32(out, self.y);
        put_u32(out, self.z);
        put_u32(out, self.w);
        assert(out@ =~= old(out)@ + self.wire());
    }

    fn take(bytes: &[u8], at: usize) -> (q: QuatBits)
        requires
            at + 16 <= bytes@.len(),
        ensures
            q == QuatBits::parse_at(bytes@, at as int),
    {
        let len: usize = bytes.len();
        assert(at + 16 <= len);
        QuatBits {
            x: take_u32(bytes, at),
            y: take_u32(bytes, at + 4),
            z: take_u32(bytes, at + 8),
            w: take_u32(bytes, at + 12),
        }
    }
}

/// The byte that stands for the jump flag.
pub open spec fn flag_byte(jump: bool) -> u8 {
    if jump {
        1
    } else {
        0
    }
}

impl Synchronizer {
    /// The record's bytes on the wire.
    pub open spec fn wire(self) -> Seq<u8> {
        le_u64(self.id as u64) + self.pos.wire() + self.rot.wire() + self.velocity.wire() + le_u32(
            self.speed,
        ) + seq![flag_byte(self.jump)] + le_u32(self.animation_index)
    }

    /// The record that the first 57 bytes of `b` spell.
    pub open spec fn parse(b: Seq<u8>) -> Synchronizer
        recommends
            b.len() >= WIRE_LEN,
    {
        Synchronizer {
            id: join_u64(b.subrange(0, 8)) as i64,
            pos: Vec3Bits::parse_at(b, 8),
            rot: QuatBits::parse_at(b, 20),
            velocity: Vec3Bits::parse_at(b, 36),
            speed: join_u32(b.subrange(48, 52)),
            jump: b[52] != 0,
            animation_index: join_u32(b.subrange(53, 57)),
        }
    }

    /// What decoding `b` gives: an error for an input shorter than a record,
    /// else the record that its first 57 bytes spell.
    pub open spec fn decode(b: Seq<u8>) -> Result<Synchronizer, DecodeError> {
        if b.len() < WIRE_LEN {
            Err(DecodeError::InsufficientBytes)
        } else {
            Ok(Synchronizer::parse(b))
        }
    }

    /// A record at rest: position and velocity zero, no rotation, speed
    /// zero, not jumping, animation 0.
    pub open spec fn at_rest(id: i64) -> Synchronizer {
        Synchronizer {
            id,
            pos: Vec3Bits::spec_zero(),
            rot: QuatBits::spec_identity(),
            velocity: Vec3Bits::spec_zero(),
            speed: 0,
            jump: false,
            animation_index: 0,
        }
    }

    /// A record at rest for the peer `id`.
    pub fn with_id(id: i64) -> (s: Synchronizer)
        ensures
            s == Synchronizer::at_rest(id),
    {
        Synchronizer {
            id,
            pos: Vec3Bits::zero(),
            rot: QuatBits::identity(),
            velocity: Vec3Bits::zero(),
            speed: 0,
            jump: false,
            animation_index: 0,
        }
    }

    /// Encodes the record.
    pub fn to_bytes(&self) -> (bytes: Vec<u8>)
        ensures
            bytes@ == self.wire(),
            bytes@.len() == WIRE_LEN,
            Synchronizer::decode(bytes@) == Ok::<Synchronizer, DecodeError>(*self),
    {
        let mut bytes: Vec<u8> = Vec::with_capacity(WIRE_LEN);
        put_u64(&mut bytes, self.id as u64);
        self.pos.put(&mut bytes);
        self.rot.put(&mut bytes);
        self.velocity.put(&mut bytes);
        put_u32(&mut bytes, self.speed);
        bytes.push(if self.jump { 1u8 } else { 0u8 });
        put_u32(&mut bytes, self.animation_index);
        proof {
            assert(bytes@ =~= self.wire());
            lemma_round_trip(*self, Seq::empty());
            assert(self.wire() + Seq::<u8>::empty() =~= self.wire());
        }
        bytes
    }

    /// Decodes a record from the start of `bytes`. Bytes after the record
    /// are not read.
    pub fn from_bytes(bytes: &[u8]) -> (result: Result<Synchronizer, DecodeError>)
        ensures
            result == Synchronizer::decode(bytes@),
            result is Err <==> bytes@.len() < WIRE_LEN,
    {
        if bytes.len() < WIRE_LEN {
            return Err(DecodeError::InsufficientBytes);
        }
        Ok(
            Synchronizer {
                id: take_u64(bytes, 0) as i64,
                pos: Vec3Bits::take(bytes, 8),
                rot: QuatBits::take(bytes, 20),
                velocity: Vec3Bits::take(bytes, 36),
                speed: take_u32(bytes, 48),
                jump: bytes[52] != 0,
                animation_index: take_u32(bytes, 53),
            },
        )
    }
}

/// A record's bytes, with whatever follows them, decode to the
/// record itself, every field bit for bit.
pub proof fn lemma_round_trip(s: Synchronizer, rest: Seq<u8>)
    ensures
        s.wire().len() == WIRE_LEN,
        Synchronizer::decode(s.wire() + rest) == Ok::<Synchronizer, DecodeError>(s),
{
    let b = s.wire() + rest;
    assert(s.wire().len() == 57);
    assert(b.subrange(0, 8) =~= le_u64(s.id as u64));
    assert(b.subrange(8, 12) =~= le_u32(s.pos.x));
    assert(b.subrange(12, 16) =~= le_u32(s.pos.y));
    assert(b.subrange(16, 20) =~= le_u32(s.pos.z));
    assert(b.subrange(20, 24) =~= le_u32(s.rot.x));
    assert(b.subrange(24, 28) =~= le_u32(s.rot.y));
    assert(b.subrange(28, 32) =~= le_u32(s.rot.z));
    assert(b.subrange(32, 36) =~= le_u32(s.rot.w));
    assert(b.subrange(36, 40) =~= le_u32(s.velocity.x));
    assert(b.subrange(40, 44) =~= le_u32(s.velocity.y));
    assert(b.subrange(44, 48) =~= le_u32(s.velocity.z));
    assert(b.subrange(48, 52) =~= le_u32(s.speed));
    assert(b[52] == flag_byte(s.jump));
    assert(b.subrange(53, 57) =~= le_u32(s.animation_index));
    lemma_join_le_u64(s.id as u64);
    lemma_join_le_u32(s.pos.x);
    lemma_join_le_u32(s.pos.y);
    lemma_join_le_u32(s.pos.z);
    lemma_join_le_u32(s.rot.x);
    lemma_join_le_u32(s.rot.y);
    lemma_join_le_u32(s.rot.z);
    lemma_join_le_u32(s.rot.w);
    lemma_join_le_u32(s.velocity.x);
    lemma_join_le_u32(s.velocity.y);
    lemma_join_le_u32(s.velocity.z);
    lemma_join_le_u32(s.speed);
    lemma_join_le_u32(s.animation_index);
    let id = s.id;
    assert(((id as u64) as i64) == id) by (bit_vector);
}

/// No input shorter than a record decodes.
pub proof fn lemma_truncated(b: Seq<u8>)
    requires
        b.len() < WIRE_LEN,
    ensures
        Synchronizer::decode(b) == Err::<Synchronizer, DecodeError>(DecodeError::InsufficientBytes),
{
}

} // verus!
