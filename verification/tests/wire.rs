use nbody::body::{ForceVector, Vector};
use nbody::error::SimError;
use nbody::wire::{adopt_forces, decode_forces, encode_forces, FORCE_BYTES};

fn vector(x: f64, y: f64) -> ForceVector {
    Vector { x: x.to_bits(), y: y.to_bits() }
}

fn sample() -> Vec<ForceVector> {
    vec![vector(1.0, -2.0), vector(1.982e20, 0.0), vector(f64::NAN, f64::INFINITY), vector(-0.0, 5e-324)]
}

#[test]
fn a_force_is_sixteen_little_endian_bytes() {
    assert_eq!(FORCE_BYTES, 16);
    let bytes = encode_forces(&vec![Vector { x: 0x0102_0304_0506_0708, y: 0x1112_1314_1516_1718 }]);
    assert_eq!(
        bytes,
        Ok(vec![
            0x08, 0x07, 0x06, 0x05, 0x04, 0x03, 0x02, 0x01, 0x18, 0x17, 0x16, 0x15, 0x14, 0x13,
            0x12, 0x11
        ])
    );
    assert_eq!(
        encode_forces(&vec![vector(1.0, -2.0)]),
        Ok(vec![0, 0, 0, 0, 0, 0, 0xf0, 0x3f, 0, 0, 0, 0, 0, 0, 0, 0xc0])
    );
}

#[test]
fn an_array_is_its_forces_in_order_without_a_header() {
    let forces = sample();
    let bytes = encode_forces(&forces).unwrap();
    assert_eq!(bytes.len(), 16 * forces.len());
    let mut expected = Vec::new();
    for f in &forces {
        expected.extend_from_slice(&f.x.to_le_bytes());
        expected.extend_from_slice(&f.y.to_le_bytes());
    }
    assert_eq!(bytes, expected);
    assert_eq!(encode_forces(&Vec::new()), Ok(Vec::new()));
}

#[test]
fn the_bytes_are_those_of_a_pair_of_floats() {
    let pairs = [(1.5f64, -2.25f64), (1.982e20, 0.0), (f64::MAX, f64::MIN_POSITIVE)];
    let mut expected = Vec::new();
    let mut forces = Vec::new();
    for pair in pairs {
        expected.extend(bincode::serialize(&pair).unwrap());
        forces.push(vector(pair.0, pair.1));
    }
    assert_eq!(encode_forces(&forces), Ok(expected));
}

#[test]
fn decoding_gives_back_what_was_encoded() {
    let forces = sample();
    let bytes = encode_forces(&forces).unwrap();
    assert_eq!(decode_forces(&bytes, forces.len()), Ok(forces));
    assert_eq!(decode_forces(&[], 0), Ok(Vec::new()));
}

#[test]
fn decoding_reads_each_force_at_its_own_place() {
    let bytes: Vec<u8> = (0u8..48).collect();
    assert_eq!(
        decode_forces(&bytes, 3),
        Ok(vec![
            Vector { x: 0x0706_0504_0302_0100, y: 0x0f0e_0d0c_0b0a_0908 },
            Vector { x: 0x1716_1514_1312_1110, y: 0x1f1e_1d1c_1b1a_1918 },
            Vector { x: 0x2726_2524_2322_2120, y: 0x2f2e_2d2c_2b2a_2928 },
        ])
    );
}

#[test]
fn a_payload_of_another_length_than_expected_is_a_mismatch() {
    let bytes = encode_forces(&sample()).unwrap();
    assert_eq!(decode_forces(&bytes, 3), Err(SimError::ProtocolMismatch));
    assert_eq!(decode_forces(&bytes, 5), Err(SimError::ProtocolMismatch));
    assert_eq!(decode_forces(&bytes, 0), Err(SimError::ProtocolMismatch));
    assert_eq!(decode_forces(&[], 1), Err(SimError::ProtocolMismatch));
    assert_eq!(decode_forces(&bytes, usize::MAX), Err(SimError::ProtocolMismatch));
}

#[test]
fn a_payload_that_is_no_whole_number_of_forces_is_malformed() {
    let bytes = encode_forces(&sample()).unwrap();
    assert_eq!(decode_forces(&bytes[..63], 4), Err(SimError::SerializationError));
    assert_eq!(decode_forces(&bytes[..63], 3), Err(SimError::SerializationError));
    assert_eq!(decode_forces(&bytes[..49], 3), Err(SimError::SerializationError));
    assert_eq!(decode_forces(&[7], 0), Err(SimError::SerializationError));
    assert_eq!(decode_forces(&bytes[..8], 1), Err(SimError::SerializationError));
}

#[test]
fn a_participant_adopts_the_array_of_the_coordinator() {
    let forces = sample();
    let bytes = encode_forces(&forces).unwrap();
    assert_eq!(adopt_forces(Some(&bytes), 4), Ok(forces));
    assert_eq!(adopt_forces(Some(&bytes), 2), Err(SimError::ProtocolMismatch));
    assert_eq!(adopt_forces(Some(&bytes[1..]), 4), Err(SimError::SerializationError));
}

#[test]
fn a_transfer_that_does_not_arrive_is_a_timeout() {
    assert_eq!(adopt_forces(None, 2), Err(SimError::CommunicationTimeout));
    assert_eq!(adopt_forces(None, 0), Err(SimError::CommunicationTimeout));
}
