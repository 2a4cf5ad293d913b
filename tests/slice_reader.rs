use rps_ping_lib::{SliceOperator, SliceReader};

#[test]
fn test_slice_reader() {
    let slice = [
        0u8, 1u8, 2u8, 3u8, 4u8, 5u8, 6u8, 7u8, 8u8, 9u8, 10u8, 11u8, 12u8, 13u8, 14u8, 15u8, 16u8,
    ];
    let mut reader = SliceReader::from_slice(&slice[..]);
    assert_eq!(
        reader.as_ref(),
        [
            0u8, 1u8, 2u8, 3u8, 4u8, 5u8, 6u8, 7u8, 8u8, 9u8, 10u8, 11u8, 12u8, 13u8, 14u8, 15u8,
            16u8
        ]
    );
    assert_eq!(reader.pos(), 0);
    assert_eq!(reader.peek_u8(), 0u8);
    assert_eq!(reader.read_u8(), 0);
    assert_eq!(reader.pos(), 1);
    assert_eq!(reader.peek_u16(), 1u16 << 8 | 2u16);
    assert_eq!(reader.read_u16(), 1u16 << 8 | 2u16);
    assert_eq!(reader.pos(), 3);
    assert_eq!(reader.peek_u32(), 3u32 << 24 | 4u32 << 16 | 5u32 << 8 | 6u32);
    assert_eq!(reader.read_u32(), 3u32 << 24 | 4u32 << 16 | 5u32 << 8 | 6u32);
    assert_eq!(reader.pos(), 7);
    assert_eq!(
        reader.peek_u64(),
        7u64 << 56
            | 8u64 << 48
            | 9u64 << 40
            | 10u64 << 32
            | 11u64 << 24
            | 12u64 << 16
            | 13u64 << 8
            | 14u64
    );
    assert_eq!(
        reader.read_u64(),
        7u64 << 56
            | 8u64 << 48
            | 9u64 << 40
            | 10u64 << 32
            | 11u64 << 24
            | 12u64 << 16
            | 13u64 << 8
            | 14u64
    );
    assert_eq!(reader.pos(), 15);
    assert_eq!(&slice[..], reader.as_ref());
    reader.set_pos(1);
    assert_eq!(reader.pos(), 1);
    reader.skip(2);
    assert_eq!(reader.pos(), 3);
    assert_eq!(reader.read_slice(2), &slice[3..5]);
    assert_eq!(reader.pos(), 5);
    assert_eq!(reader.read_slice(4), &slice[5..9]);
    assert_eq!(reader.pos(), 9);
}

#[test]
fn slice_reader_rest_and_length() {
    let slice = [9u8, 8, 7, 6];
    let mut reader = SliceReader::from_slice(&slice[..]);
    assert_eq!(reader.len(), 4);
    reader.skip(1);
    let rest: Vec<u8> = reader.iter_from_current_pos().copied().collect();
    assert_eq!(rest, vec![8, 7, 6]);
    assert_eq!(reader.as_mut(), &slice[..]);
}

#[test]
fn slice_operator_writes_big_endian() {
    let mut buf = [0u8; 20];
    {
        let mut op = SliceOperator::from_slice(&mut buf[..]);
        op.write_u8(0xab);
        op.write_u16(0x0102);
        op.write_u32(0x0304_0506);
        op.write_u64(0x0708_090a_0b0c_0d0e);
        op.write_slice(&[0xf0, 0xf1, 0xf2]);
        assert_eq!(op.pos(), 18);
        assert_eq!(op.len(), 20);
        op.set_pos(0);
        assert_eq!(op.read_u8(), 0xab);
        assert_eq!(op.peek_u16(), 0x0102);
        assert_eq!(op.read_u16(), 0x0102);
        assert_eq!(op.peek_u32(), 0x0304_0506);
        assert_eq!(op.read_u32(), 0x0304_0506);
        assert_eq!(op.peek_u64(), 0x0708_090a_0b0c_0d0e);
        assert_eq!(op.read_u64(), 0x0708_090a_0b0c_0d0e);
        assert_eq!(op.read_slice(2), &[0xf0, 0xf1]);
        let rest: Vec<u8> = op.iter_from_current_pos().copied().collect();
        assert_eq!(rest, vec![0xf2, 0, 0]);
        op.skip(1);
        assert_eq!(op.peek_u8(), 0);
        op.as_mut()[19] = 0x55;
        assert_eq!(op.as_ref()[19], 0x55);
    }
    assert_eq!(
        buf,
        [
            0xab, 1, 2, 3, 4, 5, 6, 7, 8, 9, 0xa, 0xb, 0xc, 0xd, 0xe, 0xf0, 0xf1, 0xf2, 0, 0x55
        ]
    );
}
