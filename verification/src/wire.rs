//! The wire format of a force array: sixteen bytes for each force, the two
//! components one after the other, each as eight little-endian bytes. The
//! array has no header; the receiver knows how many forces to expect.

use crate::body::{ForceVector, Vector};
use crate::error::SimError;
use vstd::bytes::{
    lemma_auto_spec_u64_to_from_le_bytes, spec_u64_from_le_bytes, spec_u64_to_le_bytes,
};
use vstd::prelude::*;
use vstd::slice::slice_subrange;

verus! {

/// The error of bincode's `serialize` and `deserialize`.
#[verifier::external_type_specification]
#[verifier::external_body]
pub struct ExErrorKind(bincode::ErrorKind);

/// The number of bytes that encode one force.
pub const FORCE_BYTES: usize = 16;

/// The sixteen bytes of one force.
pub open spec fn force_image(force: ForceVector) -> Seq<u8> {
    spec_u64_to_le_bytes(force.x) + spec_u64_to_le_bytes(force.y)
}

/// The bytes of a force array: the images of its forces, in order.
pub open spec fn image(forces: Seq<ForceVector>) -> Seq<u8>
    decreases forces.len(),
{
    if forces.len() == 0 {
        Seq::empty()
    } else {
        image(forces.drop_last()) + force_image(forces.last())
    }
}

/// The force that the sixteen bytes from `16 * i` on encode.
pub open spec fn force_at(bytes: Seq<u8>, i: int) -> ForceVector {
    Vector {
        x: spec_u64_from_le_bytes(bytes.subrange(16 * i, 16 * i + 8)),
        y: spec_u64_from_le_bytes(bytes.subrange(16 * i + 8, 16 * i + 16)),
    }
}

/// The forces that `bytes` encode, one for every sixteen bytes.
pub open spec fn parsed(bytes: Seq<u8>) -> Seq<ForceVector> {
    Seq::new((bytes.len() / 16) as nat, |i: int| force_at(bytes, i))
}

/// What a receiver that expects `expected` forces makes of `bytes`.
pub open spec fn decoded(bytes: Seq<u8>, expected: nat) -> Result<Seq<ForceVector>, SimError> {
    if bytes.len() % 16 != 0 {
        Err(SimError::SerializationError)
    } else if bytes.len() / 16 != expected {
        Err(SimError::ProtocolMismatch)
    } else {
        Ok(parsed(bytes))
    }
}

/// What a participant makes of a transfer: `None` stands for one that did
/// not arrive in time.
pub open spec fn adopted(received: Option<Seq<u8>>, expected: nat) -> Result<
    Seq<ForceVector>,
    SimError,
> {
    match received {
        Some(bytes) => decoded(bytes, expected),
        None => Err(SimError::CommunicationTimeout),
    }
}

/// Calls bincode's `serialize` on the pair of components. The contract
/// claims that the call succeeds and gives sixteen bytes: the eight
/// little-endian bytes of the first component, then those of the second.
/// This function of bincode encodes integers at fixed width and little
/// endian, writes a tuple as its fields and nothing else, and writes into a
/// vector without a limit on its size, so that no step of it can fail.
#[verifier::external_body]
fn serialize_force(force: &ForceVector) -> (r: Result<Vec<u8>, Box<bincode::ErrorKind>>)
    ensures
        r is Ok,
        r->Ok_0@ == force_image(*force),
{
    bincode::serialize(&(force.x, force.y))
}

/// Calls bincode's `deserialize` for a pair of components. The contract
/// claims that on sixteen bytes or more the call succeeds and gives the two
/// integers whose little-endian bytes the first sixteen are: this function
/// of bincode reads eight bytes for each field of the tuple, and accepts
/// bytes that follow them.
#[verifier::external_body]
fn deserialize_force(bytes: &[u8]) -> (r: Result<ForceVector, Box<bincode::ErrorKind>>)
    ensures
        bytes@.len() >= 16 ==> r is Ok,
        bytes@.len() >= 16 ==> r->Ok_0 == force_at(bytes@, 0),
{
    match bincode::deserialize::<(u64, u64)>(bytes) {
        Ok((x, y)) => Ok(Vector { x, y }),
        Err(e) => Err(e),
    }
}

/// The image of an array grows by the image of the force added to it.
proof fn lemma_image_push(forces: Seq<ForceVector>, force: ForceVector)
    ensures
        image(forces.push(force)) == image(forces) + force_image(force),
{
    assert(forces.push(force).drop_last() =~= forces);
}

/// An image has sixteen bytes for each force.
pub proof fn lemma_image_len(forces: Seq<ForceVector>)
    ensures
        image(forces).len() == 16 * forces.len(),
    decreases forces.len(),
{
    lemma_auto_spec_u64_to_from_le_bytes();
    if forces.len() > 0 {
        lemma_image_len(forces.drop_last());
    }
}

/// The force at index `i` of an array is the one that its image holds at
/// index `i`.
proof fn lemma_image_index(forces: Seq<ForceVector>, i: int)
    requires
        0 <= i < forces.len(),
    ensures
        force_at(image(forces), i) == forces[i],
    decreases forces.len(),
{
    lemma_auto_spec_u64_to_from_le_bytes();
    let front = forces.drop_last();
    let head = image(front);
    let tail = force_image(forces.last());
    lemma_image_len(front);
    if i < front.len() {
        lemma_image_index(front, i);
        assert((head + tail).subrange(16 * i, 16 * i + 8) =~= head.subrange(16 * i, 16 * i + 8));
        assert((head + tail).subrange(16 * i + 8, 16 * i + 16) =~= head.subrange(
            16 * i + 8,
            16 * i + 16,
        ));
    } else {
        assert((head + tail).subrange(16 * i, 16 * i + 8) =~= spec_u64_to_le_bytes(
            forces.last().x,
        ));
        assert((head + tail).subrange(16 * i + 8, 16 * i + 16) =~= spec_u64_to_le_bytes(
            forces.last().y,
        ));
    }
}

/// A receiver that expects as many forces as were encoded gets back the
/// array that was encoded, force for force.
pub proof fn lemma_round_trip(forces: Seq<ForceVector>)
    ensures
        decoded(image(forces), forces.len()) == Ok::<Seq<ForceVector>, SimError>(forces),
{
    lemma_image_len(forces);
    assert forall|i: int| 0 <= i < forces.len() implies parsed(image(forces))[i] == forces[i] by {
        lemma_image_index(forces, i);
    }
    assert(parsed(image(forces)) =~= forces);
}

/// Encodes a force array for the transfer to another process.
pub fn encode_forces(forces: &Vec<ForceVector>) -> (r: Result<Vec<u8>, SimError>)
    ensures
        r matches Ok(bytes) && bytes@ == image(forces@),
{
    let mut bytes: Vec<u8> = Vec::new();
    let mut i: usize = 0;
    while i < forces.len()
        invariant
            i <= forces.len(),
            bytes@ == image(forces@.take(i as int)),
        decreases forces.len() - i,
    {
        let mut chunk = match serialize_force(&forces[i]) {
            Ok(chunk) => chunk,
            Err(_) => {
                return Err(SimError::SerializationError);
            },
        };
        proof {
            lemma_image_push(forces@.take(i as int), forces@[i as int]);
            assert(forces@.take(i as int).push(forces@[i as int]) =~= forces@.take(i + 1));
        }
        bytes.append(&mut chunk);
        i += 1;
    }
    assert(forces@.take(forces@.len() as int) =~= forces@);
    Ok(bytes)
}

/// Decodes a force array that was received, for a body set of `expected`
/// bodies. A payload that is no whole number of forces is malformed; one
/// that holds another number of forces than expected is a mismatch.
pub fn decode_forces(bytes: &[u8], expected: usize) -> (r: Result<Vec<ForceVector>, SimError>)
    ensures
        match r {
            Ok(forces) => decoded(bytes@, expected as nat) == Ok::<Seq<ForceVector>, SimError>(
                forces@,
            ),
            Err(e) => decoded(bytes@, expected as nat) == Err::<Seq<ForceVector>, SimError>(e),
        },
{
    if bytes.len() % FORCE_BYTES != 0 {
        return Err(SimError::SerializationError);
    }
    if bytes.len() / FORCE_BYTES != expected {
        return Err(SimError::ProtocolMismatch);
    }
    let mut forces: Vec<ForceVector> = Vec::new();
    let mut i: usize = 0;
    while i < expected
        invariant
            bytes@.len() == 16 * expected,
            bytes@.len() <= usize::MAX,
            i <= expected,
            forces@.len() == i,
            forall|k: int| 0 <= k < i ==> forces@[k] == force_at(bytes@, k),
        decreases expected - i,
    {
        let chunk = slice_subrange(bytes, FORCE_BYTES * i, FORCE_BYTES * i + FORCE_BYTES);
        let force = match deserialize_force(chunk) {
            Ok(force) => force,
            Err(_) => {
                return Err(SimError::SerializationError);
            },
        };
        proof {
            assert(chunk@.subrange(0, 8) =~= bytes@.subrange(16 * i, 16 * i + 8));
            assert(chunk@.subrange(8, 16) =~= bytes@.subrange(16 * i + 8, 16 * i + 16));
        }
        forces.push(force);
        i += 1;
    }
    assert(forces@ =~= parsed(bytes@));
    Ok(forces)
}

/// What a participant adopts as the forces of the step: the array that the
/// coordinator sent, or the reason why there is none. `None` stands for a
/// transfer that did not arrive in time.
pub fn adopt_forces(received: Option<&[u8]>, expected: usize) -> (r: Result<
    Vec<ForceVector>,
    SimError,
>)
    ensures
        match r {
            Ok(forces) => adopted(
                match received {
                    Some(bytes) => Some(bytes@),
                    None => None,
                },
                expected as nat,
            ) == Ok::<Seq<ForceVector>, SimError>(forces@),
            Err(e) => adopted(
                match received {
                    Some(bytes) => Some(bytes@),
                    None => None,
                },
                expected as nat,
            ) == Err::<Seq<ForceVector>, SimError>(e),
        },
{
    match received {
        Some(bytes) => decode_forces(bytes, expected),
        None => Err(SimError::CommunicationTimeout),
    }
}

} // verus!
