use radiacode::buffer::BytesBuffer;
use radiacode::error::Error;

#[test]
fn reads_little_endian_values_in_order() {
    let mut b = BytesBuffer::new(vec![0x01, 0x34, 0x12, 0x78, 0x56, 0x34, 0x12, 0xff, 0xff, 0xff, 0xff]);
    assert_eq!(b.size(), 11);
    assert_eq!(b.take_u8().unwrap(), 1);
    assert_eq!(b.take_u16_le().unwrap(), 0x1234);
    assert_eq!(b.take_u32_le().unwrap(), 0x1234_5678);
    assert_eq!(b.take_i32_le().unwrap(), -1);
    assert_eq!(b.size(), 0);
}

#[test]
fn short_read_leaves_buffer_unchanged() {
    let mut b = BytesBuffer::new(vec![1, 2, 3]);
    match b.take_u32_le() {
        Err(Error::BufferUnderrun { need, have }) => {
            assert_eq!(need, 4);
            assert_eq!(have, 3);
        }
        other => panic!("unexpected {other:?}"),
    }
    assert_eq!(b.data(), &[1, 2, 3]);
    assert!(b.skip(4).is_err());
    assert_eq!(b.size(), 3);
    b.skip(2).unwrap();
    assert_eq!(b.data(), &[3]);
    assert_eq!(b.peek(0), 3);
}

#[test]
fn length_prefixed_text() {
    let mut b = BytesBuffer::new(vec![3, b'a', b'b', b'c', 9]);
    assert_eq!(b.take_length_prefixed_ascii().unwrap(), "abc");
    assert_eq!(b.data(), &[9]);
    let mut short = BytesBuffer::new(vec![5, b'a']);
    assert!(matches!(
        short.take_length_prefixed_ascii(),
        Err(Error::BufferUnderrun { need: 5, have: 1 })
    ));
    assert_eq!(short.size(), 2);
}

#[test]
fn float_bits_read_as_stored() {
    let mut b = BytesBuffer::new(2.5f32.to_le_bytes().to_vec());
    assert_eq!(f32::from_bits(b.take_f32_bits_le().unwrap()), 2.5);
}

#[test]
fn clone_is_independent() {
    let mut a = BytesBuffer::new(vec![1, 2]);
    let c = a.clone();
    a.take_u8().unwrap();
    assert_eq!(c.data(), &[1, 2]);
    assert_eq!(a.data(), &[2]);
}
