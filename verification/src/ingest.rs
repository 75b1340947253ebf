//! Making a world from a description that the host has read.
//!
//! A description is a sequence of records of [`RECORD_LEN`] bytes, one for each
//! body, with nothing before, between or after them. A record holds, in this
//! order and each in little-endian byte order: the binary64 patterns of the
//! x-coordinate, the y-coordinate, the x-velocity, the y-velocity and the mass
//! (eight bytes each), the radius (four bytes), and the colour (four bytes:
//! red, green, blue, alpha).
//!
//! A description is malformed if it ends inside a record, or if a record holds
//! a position, a velocity or a mass that is an infinity or a NaN, or a mass
//! that is not greater than zero.

use crate::actor::{Body, SimulationActor};
use crate::scalar::Scalar;
use crate::simulation::{SimulationConfig, SimulationContainer};
use vstd::prelude::*;

verus! {

/// The number of bytes that describe one body.
pub const RECORD_LEN: usize = 48;

/// Why a description was not taken.
#[derive(Clone, Copy, Debug, PartialEq, Eq, Structural)]
pub enum IngestError {
    /// The description ends inside a record.
    Truncated,
    /// The record at this place, counted from 0, holds a number that a body
    /// cannot have. No record before it does.
    Invalid { record: usize },
}

/// The number that eight bytes hold in little-endian order.
pub open spec fn le_u64(bytes: Seq<u8>) -> u64
    recommends
        bytes.len() == 8,
{
    (bytes[0] + 0x100 * bytes[1] + 0x1_0000 * bytes[2] + 0x100_0000 * bytes[3] + 0x1_0000_0000
        * bytes[4] + 0x100_0000_0000 * bytes[5] + 0x1_0000_0000_0000 * bytes[6]
        + 0x100_0000_0000_0000 * bytes[7]) as u64
}

/// The number that four bytes hold in little-endian order.
pub open spec fn le_u32(bytes: Seq<u8>) -> u32
    recommends
        bytes.len() == 4,
{
    (bytes[0] + 0x100 * bytes[1] + 0x1_0000 * bytes[2] + 0x100_0000 * bytes[3]) as u32
}

/// The scalar whose pattern the eight bytes from `at` on hold.
pub open spec fn scalar_at(record: Seq<u8>, at: int) -> Scalar {
    Scalar { bits: le_u64(record.subrange(at, at + 8)) }
}

/// The body that a record describes.
pub open spec fn record_body(record: Seq<u8>) -> Body
    recommends
        record.len() == RECORD_LEN,
{
    Body {
        position: (scalar_at(record, 0), scalar_at(record, 8)),
        velocity: (scalar_at(record, 16), scalar_at(record, 24)),
        mass: scalar_at(record, 32),
        radius: le_u32(record.subrange(40, 44)),
        color: [record[44], record[45], record[46], record[47]],
    }
}

/// A body can have these numbers: position, velocity and mass are finite, and
/// the mass is greater than zero.
pub open spec fn acceptable(body: Body) -> bool {
    &&& body.position.0.finite()
    &&& body.position.1.finite()
    &&& body.velocity.0.finite()
    &&& body.velocity.1.finite()
    &&& body.mass.finite()
    &&& body.mass.positive()
}

/// The record at place `k` of a description.
pub open spec fn record_at(description: Seq<u8>, k: int) -> Seq<u8> {
    description.subrange(k * RECORD_LEN, k * RECORD_LEN + RECORD_LEN)
}

/// The bodies that the complete records of a description describe, in order.
pub open spec fn described(description: Seq<u8>) -> Seq<Body> {
    Seq::new(
        (description.len() / RECORD_LEN as nat) as nat,
        |k: int| record_body(record_at(description, k)),
    )
}

/// Reads eight bytes in little-endian order.
fn read_u64(bytes: &[u8], at: usize) -> (value: u64)
    requires
        at + 8 <= bytes@.len(),
    ensures
        value == le_u64(bytes@.subrange(at as int, at + 8)),
{
    let b0: u64 = bytes[at] as u64;
    let b1: u64 = bytes[at + 1] as u64;
    let b2: u64 = bytes[at + 2] as u64;
    let b3: u64 = bytes[at + 3] as u64;
    let b4: u64 = bytes[at + 4] as u64;
    let b5: u64 = bytes[at + 5] as u64;
    let b6: u64 = bytes[at + 6] as u64;
    let b7: u64 = bytes[at + 7] as u64;
    b0 + 0x100 * b1 + 0x1_0000 * b2 + 0x100_0000 * b3 + 0x1_0000_0000 * b4 + 0x100_0000_0000 * b5
        + 0x1_0000_0000_0000 * b6 + 0x100_0000_0000_0000 * b7
}

/// Reads four bytes in little-endian order.
fn read_u32(bytes: &[u8], at: usize) -> (value: u32)
    requires
        at + 4 <= bytes@.len(),
    ensures
        value == le_u32(bytes@.subrange(at as int, at + 4)),
{
    let b0: u32 = bytes[at] as u32;
    let b1: u32 = bytes[at + 1] as u32;
    let b2: u32 = bytes[at + 2] as u32;
    let b3: u32 = bytes[at + 3] as u32;
    b0 + 0x100 * b1 + 0x1_0000 * b2 + 0x100_0000 * b3
}

/// Reads the scalar at `at` in the record that begins at `start`.
fn read_scalar(description: &[u8], start: usize, at: usize) -> (value: Scalar)
    requires
        at + 8 <= RECORD_LEN,
        start + RECORD_LEN <= description@.len(),
    ensures
        value == scalar_at(
            description@.subrange(start as int, start + RECORD_LEN),
            at as int,
        ),
{
    assert(description@.len() == description.len());
    assert(description@.subrange(start as int, start + RECORD_LEN).subrange(at as int, at + 8)
        =~= description@.subrange(start + at, start + at + 8));
    Scalar::from_bits(read_u64(description, start + at))
}

/// Reads the record at place `k`. `None` means that it holds a number that a
/// body cannot have.
fn read_record(description: &[u8], k: usize) -> (actor: Option<SimulationActor>)
    requires
        k * RECORD_LEN + RECORD_LEN <= description@.len(),
    ensures
        match actor {
            Some(actor) => actor@ == record_body(record_at(description@, k as int)) && acceptable(
                actor@,
            ),
            None => !acceptable(record_body(record_at(description@, k as int))),
        },
{
    assert(description@.len() == description.len());
    let start = k * RECORD_LEN;
    let ghost record = record_at(description@, k as int);
    let x = read_scalar(description, start, 0);
    let y = read_scalar(description, start, 8);
    let x_vel = read_scalar(description, start, 16);
    let y_vel = read_scalar(description, start, 24);
    let mass = read_scalar(description, start, 32);
    assert(record.subrange(40, 44) =~= description@.subrange(start + 40, start + 44));
    let radius = read_u32(description, start + 40);
    let color = [
        description[start + 44],
        description[start + 45],
        description[start + 46],
        description[start + 47],
    ];
    assert(color == [record[44], record[45], record[46], record[47]]);
    if x.is_finite() && y.is_finite() && x_vel.is_finite() && y_vel.is_finite() && mass.is_finite()
        && mass.is_positive() {
        Some(SimulationActor::new(x, y, mass, color).with_velocity((x_vel, y_vel)).with_radius(radius))
    } else {
        None
    }
}

/// Makes a world from what the host found at `path`.
///
/// An empty path stands for "nothing to read": the result is the empty,
/// suspended world with the standard constants, whatever `description` holds.
/// For any other path, `description` is what the host read there, and the
/// result is the world of the bodies it describes, suspended and with the
/// standard constants, or the reason why the description is malformed.
pub fn ingest(path: &str, description: &[u8]) -> (outcome: Result<SimulationContainer, IngestError>)
    ensures
        match outcome {
            Ok(world) => {
                &&& !world@.running
                &&& world@.config == SimulationConfig::standard()
                &&& if path@.len() == 0 {
                    world@.bodies == Seq::<Body>::empty()
                } else {
                    &&& description@.len() % RECORD_LEN as nat == 0
                    &&& world@.bodies == described(description@)
                    &&& forall|k: int|
                        0 <= k < world@.bodies.len() ==> acceptable(#[trigger] world@.bodies[k])
                }
            },
            Err(IngestError::Truncated) => path@.len() != 0 && description@.len()
                % RECORD_LEN as nat != 0,
            Err(IngestError::Invalid { record }) => {
                &&& path@.len() != 0
                &&& description@.len() % RECORD_LEN as nat == 0
                &&& record < described(description@).len()
                &&& !acceptable(described(description@)[record as int])
                &&& forall|k: int| 0 <= k < record ==> acceptable(#[trigger] described(description@)[k])
            },
        },
{
    let mut world = SimulationContainer::new();
    if path.is_empty() {
        return Ok(world);
    }
    if description.len() % RECORD_LEN != 0 {
        return Err(IngestError::Truncated);
    }
    let n = description.len() / RECORD_LEN;
    let mut k: usize = 0;
    while k < n
        invariant
            k <= n,
            path@.len() != 0,
            n == description@.len() / RECORD_LEN as nat,
            description@.len() % RECORD_LEN as nat == 0,
            !world@.running,
            world@.config == SimulationConfig::standard(),
            world@.bodies == described(description@).take(k as int),
            forall|i: int| 0 <= i < k ==> acceptable(#[trigger] described(description@)[i]),
        decreases n - k,
    {
        assert(described(description@)[k as int] == record_body(record_at(description@, k as int)));
        match read_record(description, k) {
            Some(actor) => {
                world.add_actor(actor);
                assert(world@.bodies =~= described(description@).take(k + 1));
            },
            None => {
                return Err(IngestError::Invalid { record: k });
            },
        }
        k = k + 1;
    }
    assert(described(description@).take(n as int) =~= described(description@));
    Ok(world)
}

} // verus!
