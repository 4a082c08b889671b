use vdesk::protocol::flag_byte;
use vdesk::wire::{
    push_i16, push_i32, push_u16, push_u32, push_u64, read_i16, read_i32, read_u16, read_u32,
    read_u64,
};

#[test]
fn numbers_are_written_most_significant_first() {
    let mut v = Vec::new();
    push_u16(&mut v, 0x0102);
    push_u32(&mut v, 0x0304_0506);
    push_u64(&mut v, 0x0708_090A_0B0C_0D0E);
    assert_eq!(v, vec![1, 2, 3, 4, 5, 6, 7, 8, 9, 10, 11, 12, 13, 14]);
}

#[test]
fn negative_numbers_are_two_complement() {
    let mut v = Vec::new();
    push_i16(&mut v, -2);
    push_i32(&mut v, -2);
    assert_eq!(v, vec![0xFF, 0xFE, 0xFF, 0xFF, 0xFF, 0xFE]);
}

#[test]
fn wire_numbers_are_read_back() {
    for n in [i32::MIN, -1, 0, 1, i32::MAX] {
        let mut v = vec![9];
        push_i32(&mut v, n);
        assert_eq!(read_i32(&v, 1), n);
        assert_eq!(read_u32(&v, 1), n as u32);
    }
    for n in [i16::MIN, -1, 0, i16::MAX] {
        let mut v = Vec::new();
        push_i16(&mut v, n);
        assert_eq!(read_i16(&v, 0), n);
        assert_eq!(read_u16(&v, 0), n as u16);
    }
    let mut v = Vec::new();
    push_u64(&mut v, u64::MAX - 3);
    assert_eq!(read_u64(&v, 0), u64::MAX - 3);
}

#[test]
fn flags_are_one_or_zero() {
    assert_eq!(flag_byte(true), 1);
    assert_eq!(flag_byte(false), 0);
}
