use mysticeti_sync::data::Data;
use mysticeti_sync::types::Block;

#[test]
fn serialized_image_is_little_endian_fields() {
    let b = Block { authority: 2, round: 0x0102, hash: 0xdeadbeef };
    let d = Data::new(b);
    let bytes = d.serialized_bytes();
    assert_eq!(bytes.len(), 24);
    assert_eq!(&bytes[0..8], &[2, 0, 0, 0, 0, 0, 0, 0]);
    assert_eq!(&bytes[8..16], &[0x02, 0x01, 0, 0, 0, 0, 0, 0]);
    assert_eq!(&bytes[16..24], &[0xef, 0xbe, 0xad, 0xde, 0, 0, 0, 0]);
}

#[test]
fn round_trip_preserves_the_block() {
    let b = Block { authority: 3, round: 41, hash: 123456789 };
    let d = Data::new(b);
    let wire = d.serialized_bytes().clone();
    let back = Data::deserialize(wire).expect("a serialized image deserializes");
    assert_eq!(*back.deref(), b);
    assert_eq!(back.serialized_bytes(), d.serialized_bytes());
}

#[test]
fn short_input_is_rejected() {
    assert!(Data::deserialize(vec![]).is_none());
    assert!(Data::deserialize(vec![0; 23]).is_none());
}

#[test]
fn trailing_bytes_are_tolerated_and_kept() {
    let b = Block { authority: 1, round: 2, hash: 3 };
    let mut wire = Data::new(b).serialized_bytes().clone();
    wire.push(0xff);
    wire.push(0x00);
    let back = Data::deserialize(wire.clone()).expect("trailing bytes are tolerated");
    assert_eq!(*back.deref(), b);
    // The cache keeps the wire bytes as received.
    assert_eq!(back.serialized_bytes(), &wire);
}
